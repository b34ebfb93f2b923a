use crate::assoc::{AssocMap, MapValue};
use crate::layout::settings::{ComponentSettings, SettingsValue, SettingsValueView};
use vstd::prelude::*;

verus! {

/// An image as it is handed to the renderer: its encoded bytes.
#[derive(Debug)]
pub struct ImageHandle {
    pub bytes: Vec<u8>,
}

impl View for ImageHandle {
    type V = Seq<u8>;

    open spec fn view(&self) -> Seq<u8> {
        self.bytes@
    }
}

impl Clone for ImageHandle {
    fn clone(&self) -> (r: Self)
        ensures
            r@ == self@,
    {
        ImageHandle { bytes: self.bytes.clone() }
    }
}

impl ImageHandle {
    /// The handle of the image that the bytes encode.
    pub fn from_bytes(bytes: Vec<u8>) -> (r: Self)
        ensures
            r@ == bytes@,
    {
        ImageHandle { bytes }
    }
}

/// What is kept for an image parameter: the image, or nothing while none is
/// chosen.
#[derive(Debug)]
pub struct ImageSlot(pub Option<ImageHandle>);

impl View for ImageSlot {
    type V = Option<Seq<u8>>;

    open spec fn view(&self) -> Option<Seq<u8>> {
        match self.0 {
            Some(handle) => Some(handle@),
            None => None,
        }
    }
}

impl MapValue for ImageSlot {
    fn copy_value(&self) -> (r: Self) {
        match &self.0 {
            Some(handle) => ImageSlot(Some(handle.clone())),
            None => ImageSlot(None),
        }
    }
}

/// The images of one node, by parameter name.
pub type ComponentImages = AssocMap<String, ImageSlot>;

/// The images of a layout, by the path of the node and the name of the
/// parameter.
pub type LayoutImages = AssocMap<Vec<usize>, ComponentImages>;

/// The live data that components read while they are built.
pub struct Repository {
    pub layout_images: LayoutImages,
    pub game_icon: Option<ImageHandle>,
    pub splits_icon: Vec<Option<ImageHandle>>,
}

/// A [`Repository`] as a mathematical value.
pub ghost struct RepositoryView {
    pub layout_images: Map<Seq<usize>, Map<Seq<char>, Option<Seq<u8>>>>,
    pub game_icon: Option<Seq<u8>>,
    pub splits_icon: Seq<Option<Seq<u8>>>,
}

impl View for Repository {
    type V = RepositoryView;

    open spec fn view(&self) -> RepositoryView {
        RepositoryView {
            layout_images: self.layout_images@,
            game_icon: handle_view(self.game_icon),
            splits_icon: Seq::new(
                self.splits_icon@.len(),
                |i: int| handle_view(self.splits_icon@[i]),
            ),
        }
    }
}

/// The slot that the bytes of an icon give: none for no bytes.
pub open spec fn icon_of(bytes: Seq<u8>) -> Option<Seq<u8>> {
    if bytes.len() == 0 {
        None
    } else {
        Some(bytes)
    }
}

/// The view of an image that may be absent.
pub open spec fn handle_view(handle: Option<ImageHandle>) -> Option<Seq<u8>> {
    match handle {
        Some(h) => Some(h@),
        None => None,
    }
}

/// The slot that a recorded value fills: image values fill one, with their
/// bytes; other values fill none.
pub open spec fn image_of(value: SettingsValueView) -> Option<Option<Seq<u8>>> {
    match value {
        SettingsValueView::Image(bytes) => Some(bytes),
        _ => None,
    }
}

/// The image slots that the recorded values of one node fill.
pub open spec fn images_of(values: Map<Seq<char>, SettingsValueView>) -> Map<
    Seq<char>,
    Option<Seq<u8>>,
> {
    Map::new(
        |name: Seq<char>| values.contains_key(name) && image_of(values[name]) is Some,
        |name: Seq<char>| image_of(values[name])->0,
    )
}

/// The image slots that the recorded values of one node fill.
pub fn images_from(values: &ComponentSettings) -> (r: ComponentImages)
    ensures
        r@ == images_of(values@),
{
    let names = values.keys();
    let mut out: ComponentImages = AssocMap::new();
    let mut i: usize = 0;
    while i < names.len()
        invariant
            i <= names@.len(),
            forall|k: int| 0 <= k < names@.len() ==> values@.contains_key(#[trigger] names@[k]@),
            forall|name: Seq<char>| #[trigger]
                out@.contains_key(name) ==> images_of(values@).contains_key(name) && out@[name]
                    == images_of(values@)[name],
            forall|k: int|
                0 <= k < i && images_of(values@).contains_key(#[trigger] names@[k]@)
                    ==> out@.contains_key(names@[k]@),
        decreases names@.len() - i,
    {
        match values.get(&names[i]) {
            Some(SettingsValue::Image(bytes)) => {
                let slot = match bytes {
                    Some(b) => ImageSlot(Some(ImageHandle::from_bytes(b.clone()))),
                    None => ImageSlot(None),
                };
                out.insert(names[i].clone(), slot);
            },
            _ => {},
        }
        i = i + 1;
    }
    proof {
        assert forall|name: Seq<char>| images_of(values@).contains_key(name) implies out@.contains_key(
            name,
        ) by {
            let k = choose|k: int| 0 <= k < names@.len() && #[trigger] names@[k]@ == name;
            assert(out@.contains_key(names@[k]@));
        }
        assert(out@ =~= images_of(values@));
    }
    out
}

fn icon_from(bytes: &Vec<u8>) -> (r: Option<ImageHandle>)
    ensures
        handle_view(r) == icon_of(bytes@),
{
    if bytes.len() == 0 {
        None
    } else {
        Some(ImageHandle::from_bytes(bytes.clone()))
    }
}

impl Default for Repository {
    /// A repository that holds nothing.
    fn default() -> (r: Self)
        ensures
            r.layout_images@ == Map::<Seq<usize>, Map<Seq<char>, Option<Seq<u8>>>>::empty(),
            r.game_icon is None,
            r.splits_icon@.len() == 0,
    {
        Repository::new()
    }
}

impl Repository {
    /// A repository that holds nothing.
    pub fn new() -> (r: Self)
        ensures
            r.layout_images@ == Map::<Seq<usize>, Map<Seq<char>, Option<Seq<u8>>>>::empty(),
            r.game_icon is None,
            r.splits_icon@.len() == 0,
    {
        Repository { layout_images: AssocMap::new(), game_icon: None, splits_icon: Vec::new() }
    }

    /// Takes over the icons of a run: that of the game and that of each
    /// segment, in order. An icon without bytes is no icon.
    pub fn update_from_splits(&mut self, game_icon: &Vec<u8>, segment_icons: &Vec<Vec<u8>>)
        ensures
            handle_view(final(self).game_icon) == icon_of(game_icon@),
            final(self).splits_icon@.len() == segment_icons@.len(),
            forall|i: int|
                0 <= i < segment_icons@.len() ==> handle_view(#[trigger] final(self).splits_icon@[i])
                    == icon_of(segment_icons@[i]@),
            final(self).layout_images == old(self).layout_images,
    {
        self.game_icon = icon_from(game_icon);
        let mut icons: Vec<Option<ImageHandle>> = Vec::new();
        let mut i: usize = 0;
        while i < segment_icons.len()
            invariant
                i <= segment_icons@.len(),
                icons@.len() == i,
                forall|j: int|
                    0 <= j < i ==> handle_view(#[trigger] icons@[j]) == icon_of(segment_icons@[j]@),
            decreases segment_icons@.len() - i,
        {
            icons.push(icon_from(&segment_icons[i]));
            i = i + 1;
        }
        self.splits_icon = icons;
    }

    /// Keeps an image, or the lack of one, for a parameter of a node.
    pub fn set_layout_image(&mut self, path: &Vec<usize>, name: &String, slot: ImageSlot)
        ensures
            final(self).layout_images@ == old(self).layout_images@.insert(
                path@,
                (if old(self).layout_images@.contains_key(path@) {
                    old(self).layout_images@[path@]
                } else {
                    Map::empty()
                }).insert(name@, slot@),
            ),
            final(self).game_icon == old(self).game_icon,
            final(self).splits_icon == old(self).splits_icon,
    {
        let mut images = match self.layout_images.remove(path) {
            Some(images) => images,
            None => AssocMap::new(),
        };
        images.insert(name.clone(), slot);
        self.layout_images.insert(path.clone(), images);
    }

    /// The image kept for a parameter of a node. `None`: nothing is kept
    /// for it, not even the lack of an image.
    pub fn layout_image(&self, path: &Vec<usize>, name: &String) -> (r: Option<&ImageSlot>)
        ensures
            r is Some <==> self.layout_images@.contains_key(path@) && self.layout_images@[path@].contains_key(
                name@,
            ),
            r is Some ==> r->0@ == self.layout_images@[path@][name@],
    {
        match self.layout_images.get(path) {
            Some(images) => images.get(name),
            None => None,
        }
    }
}

} // verus!
