use crate::assoc::AssocMap;
use crate::error::LayoutError;
use crate::layout::component::{
    assembles, binding, lemma_bound_at_every_path, names_node, same_at, Binding, Component,
    ComponentView,
};
use crate::layout::settings::{LayoutSettings, SettingsValueView};
use crate::lua::widgets::attributes::Length;
use crate::lua::widgets::space::LuaWidgetSpace;
use crate::lua::widgets::{failure_notice, LuaWidget, WidgetView};
use crate::lua::{Catalog, LuaContext};
use crate::number::Number;
use crate::repository::{images_from, images_of, Repository};
use vstd::prelude::*;

pub mod component;
pub mod consistency;
pub mod moving;
pub mod settings;

verus! {

/// A key combination as the hotkey library describes it, held as it is.
#[verifier::external_type_specification]
#[verifier::external_body]
pub struct ExHotkey(handy_keys::Hotkey);

/// `handy_keys::Hotkey` is `Copy`, and its derived `Clone` copies it.
pub assume_specification[ <handy_keys::Hotkey as Clone>::clone ](hotkey: &handy_keys::Hotkey) -> (r:
    handy_keys::Hotkey)
    ensures
        r == *hotkey,
;

/// What a hotkey can be bound to.
#[derive(Clone, Copy, Debug, PartialEq, Eq, Hash, Structural)]
pub enum HotkeyAction {
    StartOrSplitTimer,
    ResetTimer,
    PauseTimer,
}

/// The hotkey of each action, where it has one.
#[derive(Clone, Copy)]
pub struct HotkeyBindings {
    pub start_or_split_timer: Option<handy_keys::Hotkey>,
    pub reset_timer: Option<handy_keys::Hotkey>,
    pub pause_timer: Option<handy_keys::Hotkey>,
}

impl HotkeyAction {
    /// Every action, in the order in which they are listed.
    pub fn all() -> (r: [HotkeyAction; 3])
        ensures
            r@ == seq![
                HotkeyAction::StartOrSplitTimer,
                HotkeyAction::ResetTimer,
                HotkeyAction::PauseTimer,
            ],
    {
        let r = [HotkeyAction::StartOrSplitTimer, HotkeyAction::ResetTimer, HotkeyAction::PauseTimer];
        assert(r@ =~= seq![
            HotkeyAction::StartOrSplitTimer,
            HotkeyAction::ResetTimer,
            HotkeyAction::PauseTimer,
        ]);
        r
    }
}

impl HotkeyBindings {
    /// The hotkey bound to an action.
    pub open spec fn of(self, action: HotkeyAction) -> Option<handy_keys::Hotkey> {
        match action {
            HotkeyAction::StartOrSplitTimer => self.start_or_split_timer,
            HotkeyAction::ResetTimer => self.reset_timer,
            HotkeyAction::PauseTimer => self.pause_timer,
        }
    }

    /// The bindings with a hotkey bound to an action.
    pub open spec fn with(self, action: HotkeyAction, hotkey: handy_keys::Hotkey) -> HotkeyBindings {
        match action {
            HotkeyAction::StartOrSplitTimer => HotkeyBindings {
                start_or_split_timer: Some(hotkey),
                ..self
            },
            HotkeyAction::ResetTimer => HotkeyBindings { reset_timer: Some(hotkey), ..self },
            HotkeyAction::PauseTimer => HotkeyBindings { pause_timer: Some(hotkey), ..self },
        }
    }

    /// The bindings with an action left without a hotkey.
    pub open spec fn without(self, action: HotkeyAction) -> HotkeyBindings {
        match action {
            HotkeyAction::StartOrSplitTimer => HotkeyBindings { start_or_split_timer: None, ..self },
            HotkeyAction::ResetTimer => HotkeyBindings { reset_timer: None, ..self },
            HotkeyAction::PauseTimer => HotkeyBindings { pause_timer: None, ..self },
        }
    }

    /// No action has a hotkey.
    pub fn new() -> (r: Self)
        ensures
            forall|action: HotkeyAction| r.of(action) is None,
    {
        HotkeyBindings { start_or_split_timer: None, reset_timer: None, pause_timer: None }
    }

    /// The hotkey bound to an action.
    pub fn get(&self, action: HotkeyAction) -> (r: Option<handy_keys::Hotkey>)
        ensures
            r == self.of(action),
    {
        match action {
            HotkeyAction::StartOrSplitTimer => self.start_or_split_timer,
            HotkeyAction::ResetTimer => self.reset_timer,
            HotkeyAction::PauseTimer => self.pause_timer,
        }
    }

    /// Binds a hotkey to an action, in place of the one it had.
    pub fn insert(&mut self, action: HotkeyAction, hotkey: handy_keys::Hotkey)
        ensures
            *final(self) == old(self).with(action, hotkey),
            final(self).of(action) == Some(hotkey),
            forall|other: HotkeyAction| other != action ==> final(self).of(other) == old(self).of(other),
    {
        match action {
            HotkeyAction::StartOrSplitTimer => {
                self.start_or_split_timer = Some(hotkey);
            },
            HotkeyAction::ResetTimer => {
                self.reset_timer = Some(hotkey);
            },
            HotkeyAction::PauseTimer => {
                self.pause_timer = Some(hotkey);
            },
        }
    }

    /// Leaves an action without a hotkey.
    pub fn remove(&mut self, action: HotkeyAction)
        ensures
            *final(self) == old(self).without(action),
            final(self).of(action) is None,
            forall|other: HotkeyAction| other != action ==> final(self).of(other) == old(self).of(other),
    {
        match action {
            HotkeyAction::StartOrSplitTimer => {
                self.start_or_split_timer = None;
            },
            HotkeyAction::ResetTimer => {
                self.reset_timer = None;
            },
            HotkeyAction::PauseTimer => {
                self.pause_timer = None;
            },
        }
    }
}

/// A layout: what is shown, by whom it was made, how large it is, and what
/// the user has set on each of its components.
pub struct Layout {
    pub name: String,
    pub author: String,
    /// The root component. `None` while none has been chosen, which is not
    /// the same as a root without children.
    pub content: Option<Component>,
    pub settings: LayoutSettings,
    pub hotkeys: HotkeyBindings,
    pub width: Number,
    pub height: Number,
}

/// A [`Layout`] as a mathematical value.
pub ghost struct LayoutView {
    pub name: Seq<char>,
    pub author: Seq<char>,
    pub content: Option<ComponentView>,
    pub settings: Map<Seq<usize>, Map<Seq<char>, SettingsValueView>>,
    pub hotkeys: HotkeyBindings,
    pub width: Number,
    pub height: Number,
}

impl View for Layout {
    type V = LayoutView;

    open spec fn view(&self) -> LayoutView {
        LayoutView {
            name: self.name@,
            author: self.author@,
            content: match self.content {
                Some(root) => Some(root@),
                None => None,
            },
            settings: self.settings@,
            hotkeys: self.hotkeys,
            width: self.width,
            height: self.height,
        }
    }
}

/// The bit pattern of the number 200.
pub const DEFAULT_WIDTH_BITS: u64 = 0x4069_0000_0000_0000;

/// The bit pattern of the number 500.
pub const DEFAULT_HEIGHT_BITS: u64 = 0x407F_4000_0000_0000;

impl Default for Layout {
    /// An untitled layout of 200 by 500 with no root, nothing set and no
    /// hotkeys.
    fn default() -> (r: Self)
        ensures
            r.name@ == "untitled"@,
            r.author@ == Seq::<char>::empty(),
            r.content is None,
            r.settings@ == Map::<Seq<usize>, Map<Seq<char>, SettingsValueView>>::empty(),
            forall|action: HotkeyAction| r.hotkeys.of(action) is None,
            r.width.bits == DEFAULT_WIDTH_BITS,
            r.height.bits == DEFAULT_HEIGHT_BITS,
    {
        Layout {
            name: "untitled".to_owned(),
            author: String::new(),
            content: None,
            settings: AssocMap::new(),
            hotkeys: HotkeyBindings::new(),
            width: Number::from_bits(DEFAULT_WIDTH_BITS),
            height: Number::from_bits(DEFAULT_HEIGHT_BITS),
        }
    }
}

/// What is shown for a layout without content: space that fills the window.
pub open spec fn empty_preview() -> WidgetView {
    WidgetView::Space(LuaWidgetSpace { width: Some(Length::Fill), height: Some(Length::Fill) })
}

/// What is kept once the images of everything recorded are handed over:
/// under each path that has something recorded, the images of that; under
/// any other path, what was kept before.
pub open spec fn staged(
    images: Map<Seq<usize>, Map<Seq<char>, Option<Seq<u8>>>>,
    settings: Map<Seq<usize>, Map<Seq<char>, SettingsValueView>>,
) -> Map<Seq<usize>, Map<Seq<char>, Option<Seq<u8>>>> {
    Map::new(
        |path: Seq<usize>| settings.contains_key(path) || images.contains_key(path),
        |path: Seq<usize>|
            if settings.contains_key(path) {
                images_of(settings[path])
            } else {
                images[path]
            },
    )
}

/// Whether what is kept holds, under each path that has something recorded,
/// the images of what is recorded there.
pub open spec fn images_follow(
    settings: Map<Seq<usize>, Map<Seq<char>, SettingsValueView>>,
    images: Map<Seq<usize>, Map<Seq<char>, Option<Seq<u8>>>>,
) -> bool {
    forall|path: Seq<usize>| #[trigger]
        settings.contains_key(path) ==> images.contains_key(path) && images[path] == images_of(
            settings[path],
        )
}

/// Binding a tree keeps the images with what is recorded: where they held
/// the images of everything recorded before, they do so after.
pub proof fn lemma_binding_keeps_images(tree: ComponentView, at: Seq<usize>, b: Binding)
    requires
        b.bound_below(tree, at),
        b.elsewhere_unchanged(tree, at),
        images_follow(b.settings_before, b.images_before),
    ensures
        images_follow(b.settings_after, b.images_after),
{
    assert forall|path: Seq<usize>| #[trigger]
        b.settings_after.contains_key(path) implies b.images_after.contains_key(path)
        && b.images_after[path] == images_of(b.settings_after[path]) by {
        if names_node(tree, at, path) {
            let rest = path.skip(at.len() as int);
            lemma_bound_at_every_path(tree, at, b, rest);
            assert(at + rest =~= path);
            if tree.node_at(rest).widget is None {
                assert(b.settings_before.contains_key(path));
            }
        } else {
            assert(b.unchanged_at(path));
            assert(b.settings_before.contains_key(path));
        }
    }
}

/// What making a layout ready for use does (see [`Layout::load`]), from the
/// layout as it was read to the layout that is ready and the failures that
/// are listed.
pub open spec fn made_ready(
    content: Layout,
    ready: Layout,
    failures: Seq<(Vec<usize>, LayoutError)>,
    components: Map<Seq<char>, Seq<char>>,
    images_before: Map<Seq<usize>, Map<Seq<char>, Option<Seq<u8>>>>,
    images_after: Map<Seq<usize>, Map<Seq<char>, Option<Seq<u8>>>>,
) -> bool {
    let handed = staged(images_before, content.settings@);
    &&& ready.name == content.name
    &&& ready.author == content.author
    &&& ready.hotkeys == content.hotkeys
    &&& ready.width == content.width
    &&& ready.height == content.height
    &&& images_follow(ready.settings@, images_after)
    &&& match content.content {
        Some(root) => {
            let b = binding(
                components,
                content.settings@,
                ready.settings@,
                handed,
                images_after,
                failures,
            );
            &&& ready.content is Some
            &&& root@.same_outline(ready.content->0@)
            &&& b.bound_below(ready.content->0@, Seq::empty())
            &&& b.elsewhere_unchanged(ready.content->0@, Seq::empty())
            &&& forall|k: int|
                0 <= k < failures.len() ==> names_node(
                    ready.content->0@,
                    Seq::empty(),
                    (#[trigger] failures[k]).0@,
                )
        },
        None => {
            &&& ready.content is None
            &&& failures.len() == 0
            &&& ready.settings@ == content.settings@
            &&& images_after == handed
        },
    }
}

impl Layout {
    /// Makes a layout that was read ready for use. The images that its
    /// recorded values hold are handed to the repository, under the path and
    /// name under which they are recorded (see [`staged`]); then the tree,
    /// if there is one, is bound to the installed scripts again (see
    /// [`Component::load`]). The nodes that could not be bound are listed;
    /// the layout is usable all the same, each of them showing the failure
    /// notice. In the end the repository keeps the images of everything
    /// that is recorded.
    pub fn load(
        repository: &mut Repository,
        components: &Catalog,
        lua: &LuaContext,
        content: Layout,
    ) -> (r: (Layout, Vec<(Vec<usize>, LayoutError)>))
        ensures
            made_ready(
                content,
                r.0,
                r.1@,
                components@,
                old(repository).layout_images@,
                final(repository).layout_images@,
            ),
            final(repository).game_icon == old(repository).game_icon,
            final(repository).splits_icon == old(repository).splits_icon,
    {
        let mut layout = content;
        let paths = layout.settings.keys();
        let ghost images_before = repository.layout_images@;
        let ghost done: Set<Seq<usize>> = Set::empty();
        let mut i: usize = 0;
        while i < paths.len()
            invariant
                i <= paths@.len(),
                layout == content,
                repository.game_icon == old(repository).game_icon,
                repository.splits_icon == old(repository).splits_icon,
                images_before == old(repository).layout_images@,
                forall|k: int| 0 <= k < paths@.len() ==> layout.settings@.contains_key(#[trigger] paths@[k]@),
                forall|k: int| 0 <= k < i ==> done.contains(#[trigger] paths@[k]@),
                forall|path: Seq<usize>| #[trigger]
                    done.contains(path) ==> layout.settings@.contains_key(path)
                        && repository.layout_images@.contains_key(path)
                        && repository.layout_images@[path] == images_of(layout.settings@[path]),
                forall|path: Seq<usize>|
                    !done.contains(path) ==> #[trigger] same_at(
                        images_before,
                        repository.layout_images@,
                        path,
                    ),
            decreases paths@.len() - i,
        {
            let ghost kept = repository.layout_images@;
            match layout.settings.get(&paths[i]) {
                Some(values) => {
                    let images = images_from(values);
                    repository.layout_images.insert(paths[i].clone(), images);
                },
                None => {},
            }
            proof {
                done = done.insert(paths@[i as int]@);
                assert forall|path: Seq<usize>| !done.contains(path) implies #[trigger] same_at(
                    images_before,
                    repository.layout_images@,
                    path,
                ) by {
                    assert(same_at(images_before, kept, path));
                }
            }
            i = i + 1;
        }
        let ghost handed = repository.layout_images@;
        proof {
            assert forall|path: Seq<usize>| layout.settings@.contains_key(path) implies done.contains(
                path,
            ) by {
                let k = choose|k: int| 0 <= k < paths@.len() && #[trigger] paths@[k]@ == path;
                assert(done.contains(paths@[k]@));
            }
            assert forall|path: Seq<usize>| #[trigger]
                staged(images_before, content.settings@).contains_key(path)
                    == handed.contains_key(path) && (handed.contains_key(path) ==> handed[path]
                    == staged(images_before, content.settings@)[path]) by {
                if !done.contains(path) {
                    assert(same_at(images_before, handed, path));
                }
            }
            assert(handed =~= staged(images_before, content.settings@));
            assert(images_follow(content.settings@, handed));
        }
        let mut tree = layout.content.take();
        let failures = match tree {
            Some(mut root) => {
                let failures = root.load(
                    Vec::new(),
                    &mut layout.settings,
                    repository,
                    components,
                    lua,
                );
                proof {
                    lemma_binding_keeps_images(
                        root@,
                        Seq::empty(),
                        binding(
                            components@,
                            content.settings@,
                            layout.settings@,
                            handed,
                            repository.layout_images@,
                            failures@,
                        ),
                    );
                }
                layout.content = Some(root);
                failures
            },
            None => Vec::new(),
        };
        (layout, failures)
    }

    /// Builds what the layout shows: the widget tree of its root, built at
    /// the empty path (see [`Component::build`]), the failure notice where
    /// the root cannot be built, and space that fills the window where there
    /// is no root. No place of a child is left in it.
    pub fn build(&self, lua: &LuaContext, repository: &Repository) -> (r: LuaWidget)
        ensures
            r@.is_resolved(),
            self.content is None ==> r@ == empty_preview(),
            self.content is Some && self.content->0.widget is None ==> r@ == failure_notice(),
            self.content is Some ==> r@ == failure_notice() || exists|
                raw: WidgetView,
                shown: Seq<Option<WidgetView>>,
            | #[trigger] assembles(self.content->0, raw, shown, r@),
    {
        match &self.content {
            Some(root) => {
                match root.build(lua, Vec::new(), &self.settings, repository) {
                    Ok(widget) => widget,
                    Err(_) => LuaWidget::failure_notice(),
                }
            },
            None => LuaWidget::Space(
                LuaWidgetSpace { width: Some(Length::Fill), height: Some(Length::Fill) },
            ),
        }
    }
}

} // verus!
