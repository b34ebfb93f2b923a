use crate::assoc::{AssocMap, MapKey};
use crate::error::LayoutError;
use crate::layout::component::{
    lemma_component_view, recorded_at, script_source, Component, ComponentView,
};
use crate::layout::moving::{rekey, rekeyed, Move};
use crate::layout::settings::{
    set_color_channel, with_color_channel, SettingsValue, SettingsValueView,
};
use crate::layout::{made_ready, HotkeyAction, Layout, LayoutView};
use crate::lua::settings::{
    defaults_of, SettingsFactory, SettingsFactoryEntry, SettingsFactoryEntryContent,
    SettingsFactoryValue,
};
use crate::lua::{Catalog, LuaContext};
use crate::number::Number;
use crate::path::{move_path, moved_path, parent_of};
use crate::repository::{
    images_from, images_of, ImageHandle, ImageSlot, Repository, RepositoryView,
};
use vstd::prelude::*;

verus! {

/// What the editor shows.
#[derive(Clone, Copy, Debug, PartialEq, Eq, Structural)]
pub enum AppScreen {
    LayoutEditor,
    LayoutPreview,
    HotkeyEditor,
}

/// What the user, or the application on the user's behalf, asks of the
/// editor.
///
/// A number that the user types arrives as what the text gave: `None` where
/// the text is no number. The channel of a color arrives as the share of
/// the full value that the text gave: `None` where the text is no number or
/// is more than the full value.
#[derive(Clone, Debug)]
pub enum AppMessage {
    Update,
    LoadLayoutOpenPicker,
    LoadLayout(String),
    SaveLayoutOpenPicker,
    SaveLayout(String),
    TogglePreview,
    ToggleHotkeyEditor,
    LayoutNameChanged(String),
    LayoutAuthorChanged(String),
    OpenComponent(Vec<usize>),
    NewComponentComboBoxSelected(String),
    AddNewComponent(Vec<usize>, String),
    DeleteComponent(Vec<usize>),
    MoveComponentUp(Vec<usize>),
    MoveComponentDown(Vec<usize>),
    EnterAboveComponent(Vec<usize>),
    ExitParentComponent(Vec<usize>),
    ModifyParameterBoolean(Vec<usize>, String, bool),
    ModifyParameterString(Vec<usize>, String, String),
    ModifyParameterOptions(Vec<usize>, String, String),
    ModifyParameterNumber(Vec<usize>, String, Option<Number>),
    ModifyParameterNumberRange(Vec<usize>, String, Number),
    ModifyParameterColor(Vec<usize>, String, usize, Option<Number>),
    ModifyParameterImageOpen(Vec<usize>, String),
    ModifyParameterImageSubmit(Vec<usize>, String, Vec<u8>),
    StartRecordingHotkey(HotkeyAction),
    AssignHotkey(KeyPress),
}

/// A key combination that arrived from the keyboard, with what the editor
/// reads of it.
#[derive(Clone, Copy, Debug)]
pub struct KeyPress {
    /// The combination, as the hotkey library describes it.
    pub hotkey: handy_keys::Hotkey,
    /// Whether its key is the escape key, with or without modifiers.
    pub escape: bool,
}

/// What the application is to do once the editor has taken a message. The
/// editor decides; the application does the work and comes back with a
/// message where the work gives one.
#[derive(Debug)]
pub enum Task {
    /// Nothing is to be done.
    Nothing,
    /// Hand this message to the editor next.
    Done(AppMessage),
    /// See whether a key was pressed or let go, and tell the editor with
    /// [`App::key_event`].
    PollKeyboard,
    /// Let the user pick a layout file; hand the choice, if there is one,
    /// to the editor as [`AppMessage::LoadLayout`].
    PickLayoutToLoad,
    /// Let the user pick where to save; hand the choice, if there is one,
    /// to the editor as [`AppMessage::SaveLayout`].
    PickLayoutToSave,
    /// Read the layout at the path and hand it to [`App::install_layout`].
    ReadLayout(String),
    /// Write the layout to the path.
    WriteLayout(String),
    /// Let the user pick an image for the parameter of the node; hand the
    /// bytes of the choice, if there is one and it can be read, to the
    /// editor as [`AppMessage::ModifyParameterImageSubmit`].
    PickImage(Vec<usize>, String),
}

/// The choices of a parameter, as the editor lists them.
pub struct OptionList(pub Vec<String>);

/// The texts of a list of strings.
pub open spec fn texts(list: Seq<String>) -> Seq<Seq<char>> {
    Seq::new(list.len(), |i: int| list[i]@)
}

impl View for OptionList {
    type V = Seq<Seq<char>>;

    open spec fn view(&self) -> Seq<Seq<char>> {
        texts(self.0@)
    }
}

/// The state of the editor.
pub struct App {
    /// The installed component scripts.
    pub components: Catalog,
    pub lua_context: LuaContext,
    pub layout: Layout,
    pub repository: Repository,
    pub screen: AppScreen,
    /// The path of the node that is open for editing.
    pub opened_component: Vec<usize>,
    /// The component that is chosen to be added next.
    pub new_component_combo_box_selected: Option<String>,
    /// The choices of each parameter of the open node that has choices.
    pub parameter_options: AssocMap<String, OptionList>,
    /// The action that the next hotkey will be bound to.
    pub hotkey_recorder: Option<HotkeyAction>,
}

/// An [`App`] as a mathematical value.
pub ghost struct AppView {
    pub components: Map<Seq<char>, Seq<char>>,
    /// The interpreter, which is one and the same for as long as the editor
    /// lives.
    pub lua_context: LuaContext,
    pub layout: LayoutView,
    pub repository: RepositoryView,
    pub screen: AppScreen,
    pub opened_component: Seq<usize>,
    pub new_component_combo_box_selected: Option<Seq<char>>,
    pub parameter_options: Map<Seq<char>, Seq<Seq<char>>>,
    pub hotkey_recorder: Option<HotkeyAction>,
}

impl View for App {
    type V = AppView;

    open spec fn view(&self) -> AppView {
        AppView {
            components: self.components@,
            lua_context: self.lua_context,
            layout: self.layout@,
            repository: self.repository@,
            screen: self.screen,
            opened_component: self.opened_component@,
            new_component_combo_box_selected: match self.new_component_combo_box_selected {
                Some(name) => Some(name@),
                None => None,
            },
            parameter_options: self.parameter_options@,
            hotkey_recorder: self.hotkey_recorder,
        }
    }
}

/// Whether a hotkey is the escape key with or without modifiers: the field
/// `key` of `handy_keys::Hotkey` compared with `handy_keys::Key::Escape`, by
/// the `==` that the hotkey library derives for its keys. Nothing is
/// claimed of the answer.
#[verifier::external_body]
fn is_escape(hotkey: &handy_keys::Hotkey) -> bool {
    hotkey.key == Some(handy_keys::Key::Escape)
}

impl KeyPress {
    /// The key press of a key combination. Whether the combination counts
    /// as the escape key is for the hotkey library to say.
    pub fn of(hotkey: handy_keys::Hotkey) -> (r: Self)
        ensures
            r.hotkey == hotkey,
    {
        KeyPress { hotkey, escape: is_escape(&hotkey) }
    }
}

/// The choices that the lines of a schema declare, by the name of the
/// parameter; a later line of a name counts.
pub open spec fn options_of(entries: Seq<SettingsFactoryEntry>) -> Map<Seq<char>, Seq<Seq<char>>>
    decreases entries.len(),
{
    if entries.len() == 0 {
        Map::empty()
    } else {
        let before = options_of(entries.drop_last());
        match entries.last().content {
            SettingsFactoryEntryContent::Value(
                name,
                SettingsFactoryValue::Options(options, _),
            ) => before.insert(name@, texts(options@)),
            _ => before,
        }
    }
}

/// A copy of a list of texts.
pub(crate) fn copy_texts(list: &Vec<String>) -> (r: Vec<String>)
    ensures
        texts(r@) == texts(list@),
{
    let mut out: Vec<String> = Vec::new();
    let mut i: usize = 0;
    while i < list.len()
        invariant
            i <= list@.len(),
            out@.len() == i,
            forall|k: int| 0 <= k < i ==> (#[trigger] out@[k])@ == list@[k]@,
        decreases list@.len() - i,
    {
        out.push(list[i].clone());
        i = i + 1;
    }
    assert(texts(out@) =~= texts(list@));
    out
}

fn options_from(schema: &SettingsFactory) -> (r: AssocMap<String, OptionList>)
    ensures
        r@ == options_of(schema.0@),
{
    let mut out: AssocMap<String, OptionList> = AssocMap::new();
    let mut i: usize = 0;
    while i < schema.0.len()
        invariant
            i <= schema.0@.len(),
            out@ == options_of(schema.0@.subrange(0, i as int)),
        decreases schema.0@.len() - i,
    {
        proof {
            assert(schema.0@.subrange(0, i + 1).drop_last() =~= schema.0@.subrange(0, i as int));
        }
        match &schema.0[i].content {
            SettingsFactoryEntryContent::Value(name, SettingsFactoryValue::Options(options, _)) => {
                out.insert(name.clone(), OptionList(copy_texts(options)));
            },
            _ => {},
        }
        i = i + 1;
    }
    proof {
        assert(schema.0@.subrange(0, schema.0@.len() as int) =~= schema.0@);
    }
    out
}

/// The screen after the button of another screen was pressed: that screen,
/// or the layout editor where that screen was showing.
pub open spec fn toggled(screen: AppScreen, other: AppScreen) -> AppScreen {
    if screen == other {
        AppScreen::LayoutEditor
    } else {
        other
    }
}

/// Where the open node is found after the node at `path` was taken away:
/// at the parent of that node where the open node went with it, and else
/// where the taking moved it.
pub open spec fn opened_after_delete(opened: Seq<usize>, path: Seq<usize>) -> Seq<usize> {
    if path.len() == 0 {
        Seq::empty()
    } else {
        match moved_path(opened, path, None) {
            Some(place) => place,
            None => path.drop_last(),
        }
    }
}

/// The images of a layout after the node at `path` came to stand at
/// `place`.
pub open spec fn images_moved_to(
    images: Map<Seq<usize>, Map<Seq<char>, Option<Seq<u8>>>>,
    path: Seq<usize>,
    place: Seq<usize>,
) -> Map<Seq<usize>, Map<Seq<char>, Option<Seq<u8>>>> {
    if place == path {
        images
    } else {
        rekeyed(images, path, Some(place))
    }
}

/// What stands recorded after a value was set for a parameter of the node
/// at `path`.
pub open spec fn with_parameter(
    settings: Map<Seq<usize>, Map<Seq<char>, SettingsValueView>>,
    path: Seq<usize>,
    name: Seq<char>,
    value: SettingsValueView,
) -> Map<Seq<usize>, Map<Seq<char>, SettingsValueView>> {
    settings.insert(path, settings[path].insert(name, value))
}

impl AppView {
    /// The editor with another layout.
    pub open spec fn with_layout(self, layout: LayoutView) -> AppView {
        AppView { layout, ..self }
    }

    /// The editor with something else recorded in its layout.
    pub open spec fn with_settings(
        self,
        settings: Map<Seq<usize>, Map<Seq<char>, SettingsValueView>>,
    ) -> AppView {
        AppView { layout: LayoutView { settings, ..self.layout }, ..self }
    }

    /// The editor with other images of the layout.
    pub open spec fn with_images(self, images: Map<Seq<usize>, Map<Seq<char>, Option<Seq<u8>>>>) -> AppView {
        AppView { repository: RepositoryView { layout_images: images, ..self.repository }, ..self }
    }

    /// The editor once the bytes of an image are recorded for a parameter of
    /// the node at `path` and the image is kept for it.
    pub open spec fn with_image(self, path: Seq<usize>, name: Seq<char>, bytes: Seq<u8>) -> AppView {
        self.with_settings(
            with_parameter(
                self.layout.settings,
                path,
                name,
                SettingsValueView::Image(Some(bytes)),
            ),
        ).with_images(
            self.repository.layout_images.insert(
                path,
                recorded_at(self.repository.layout_images, path).insert(name, Some(bytes)),
            ),
        )
    }

    /// The editor once the node at `path`, which is there, is open: what was
    /// chosen to be added is forgotten, and the choices listed are those of
    /// the node's schema.
    pub open spec fn opened(self, path: Seq<usize>) -> AppView {
        AppView {
            opened_component: path,
            new_component_combo_box_selected: None,
            parameter_options: options_of(self.layout.content->0.node_at(path).parameters),
            ..self
        }
    }

    /// The editor once a key press arrived: its hotkey is bound to the
    /// action that was being recorded, or the action is left without one
    /// where the key is the escape key; after that nothing is being
    /// recorded.
    pub open spec fn assigned(self, pressed: KeyPress) -> AppView {
        match self.hotkey_recorder {
            Some(action) => AppView {
                layout: LayoutView {
                    hotkeys: if pressed.escape {
                        self.layout.hotkeys.without(action)
                    } else {
                        self.layout.hotkeys.with(action, pressed.hotkey)
                    },
                    ..self.layout
                },
                hotkey_recorder: None,
                ..self
            },
            None => self,
        }
    }
}

/// Whether something is recorded for the node at `path`.
pub open spec fn recorded_for(app: App, path: Seq<usize>) -> bool {
    app@.layout.settings.contains_key(path)
}

/// Whether a result is the given task.
pub open spec fn gives(r: Result<Task, LayoutError>, task: Task) -> bool {
    r == Ok::<Task, LayoutError>(task)
}

/// Whether a result is the given error.
pub open spec fn refuses(r: Result<Task, LayoutError>, error: LayoutError) -> bool {
    r == Err::<Task, LayoutError>(error)
}

/// Whether a result hands on the message to open the node at `place`.
pub open spec fn opens(r: Result<Task, LayoutError>, place: Seq<usize>) -> bool {
    r matches Ok(Task::Done(AppMessage::OpenComponent(p))) && p@ == place
}

impl App {
    /// The editor at its start: an untitled layout, the layout editor
    /// showing, the root open, and no icon for any segment of the run.
    pub fn new(components: Catalog, lua_context: LuaContext, segments: usize) -> (r: Self)
        ensures
            r@.components == components@,
            r.lua_context == lua_context,
            r.layout@.content is None,
            r.layout@.settings == Map::<Seq<usize>, Map<Seq<char>, SettingsValueView>>::empty(),
            r.screen == AppScreen::LayoutEditor,
            r@.opened_component.len() == 0,
            r@.new_component_combo_box_selected is None,
            r@.parameter_options == Map::<Seq<char>, Seq<Seq<char>>>::empty(),
            r@.hotkey_recorder is None,
            r@.repository.splits_icon.len() == segments,
            forall|i: int| 0 <= i < segments ==> (#[trigger] r@.repository.splits_icon[i]) is None,
    {
        let mut repository = Repository::new();
        let mut i: usize = 0;
        while i < segments
            invariant
                i <= segments,
                repository.splits_icon@.len() == i,
                forall|k: int| 0 <= k < i ==> (#[trigger] repository.splits_icon@[k]) is None,
            decreases segments - i,
        {
            repository.splits_icon.push(None);
            i = i + 1;
        }
        App {
            components,
            lua_context,
            layout: Layout::default(),
            repository,
            screen: AppScreen::LayoutEditor,
            opened_component: Vec::new(),
            new_component_combo_box_selected: None,
            parameter_options: AssocMap::new(),
            hotkey_recorder: None,
        }
    }

    /// What follows from a key being pressed or let go: while a hotkey is
    /// being recorded, a key that is let go is the hotkey.
    pub fn key_event(&self, is_key_down: bool, pressed: KeyPress) -> (r: Task)
        ensures
            r == (if self.hotkey_recorder is Some && !is_key_down {
                Task::Done(AppMessage::AssignHotkey(pressed))
            } else {
                Task::Nothing
            }),
    {
        if self.hotkey_recorder.is_some() && !is_key_down {
            Task::Done(AppMessage::AssignHotkey(pressed))
        } else {
            Task::Nothing
        }
    }

    /// Takes a layout that was read in place of the present one, after
    /// making it ready for use (see [`Layout::load`]), and lists the nodes
    /// that could not be bound to their scripts. But for the layout and the
    /// images that are kept for it, the editor stays as it is.
    pub fn install_layout(&mut self, content: Layout) -> (r: Vec<(Vec<usize>, LayoutError)>)
        ensures
            made_ready(
                content,
                final(self).layout,
                r@,
                old(self)@.components,
                old(self)@.repository.layout_images,
                final(self)@.repository.layout_images,
            ),
            final(self)@ == old(self)@.with_layout(final(self)@.layout).with_images(
                final(self)@.repository.layout_images,
            ),
    {
        let (layout, failures) = Layout::load(
            &mut self.repository,
            &self.components,
            &self.lua_context,
            content,
        );
        self.layout = layout;
        proof {
            assert(self@.repository.splits_icon =~= old(self)@.repository.splits_icon);
        }
        failures
    }

    /// Shows the preview, or the layout editor again where the preview was
    /// showing.
    pub fn toggle_preview(&mut self)
        ensures
            final(self)@ == (AppView {
                screen: toggled(old(self).screen, AppScreen::LayoutPreview),
                ..old(self)@
            }),
    {
        self.screen = match self.screen {
            AppScreen::LayoutPreview => AppScreen::LayoutEditor,
            _ => AppScreen::LayoutPreview,
        };
    }

    /// Shows the hotkey editor, or the layout editor again where the hotkey
    /// editor was showing.
    pub fn toggle_hotkey_editor(&mut self)
        ensures
            final(self)@ == (AppView {
                screen: toggled(old(self).screen, AppScreen::HotkeyEditor),
                ..old(self)@
            }),
    {
        self.screen = match self.screen {
            AppScreen::HotkeyEditor => AppScreen::LayoutEditor,
            _ => AppScreen::HotkeyEditor,
        };
    }

    /// Opens the node at `path` for editing. A layout without content has
    /// nothing to open, and stays as it is.
    pub fn open_component(&mut self, path: Vec<usize>) -> (r: Result<(), LayoutError>)
        ensures
            match r {
                Ok(_) => match old(self)@.layout.content {
                    Some(root) => root.has_path(path@) && final(self)@ == old(self)@.opened(path@),
                    None => final(self)@ == old(self)@,
                },
                Err(e) => {
                    &&& e == LayoutError::NoSuchChild
                    &&& old(self)@.layout.content is Some
                    &&& !old(self)@.layout.content->0.has_path(path@)
                    &&& final(self)@ == old(self)@
                },
            },
    {
        match &self.layout.content {
            None => Ok(()),
            Some(root) => {
                match root.get_from_path(path.clone()) {
                    Err(e) => Err(e),
                    Ok(node) => {
                        proof {
                            lemma_component_view(*node);
                        }
                        let options = options_from(&node.parameters);
                        self.parameter_options = options;
                        self.opened_component = path;
                        self.new_component_combo_box_selected = None;
                        Ok(())
                    },
                }
            },
        }
    }

    /// Adds a component to the layout as the last child of the node at
    /// `parent`, or as its root where it has none; the defaults of the
    /// component are recorded for it, and for each of its image parameters
    /// the lack of an image is kept. The node is opened next.
    pub fn add_component(&mut self, parent: Vec<usize>, component: Component) -> (r: Result<
        Task,
        LayoutError,
    >)
        ensures
            adds(old(self)@, final(self)@, r, parent@, component@),
            old(self)@.layout.consistent() ==> final(self)@.layout.consistent(),
    {
        proof {
            lemma_component_view(component);
        }
        let images = images_from(&component.parameters.initialize_defaults());
        match self.layout.component_add(parent, component) {
            Err(e) => Err(e),
            Ok(place) => {
                self.repository.layout_images.insert(place.clone(), images);
                Ok(Task::Done(AppMessage::OpenComponent(place)))
            },
        }
    }

    /// Makes the component of a name from its installed script (see
    /// [`script_source`] and [`Component::from_str`]) and adds it to the
    /// layout (see [`App::add_component`]). A name that no installed script
    /// has, and a script that fails, leave the editor as it is.
    pub fn add_new_component(&mut self, parent: Vec<usize>, name: String) -> (r: Result<
        Task,
        LayoutError,
    >)
        ensures
            adds_new(old(self)@, final(self)@, r, parent@, name@),
            old(self)@.layout.consistent() ==> final(self)@.layout.consistent(),
    {
        let component = match script_source(&self.components, &name) {
            Err(e) => {
                return Err(e);
            },
            Ok(source) => {
                match Component::from_str(source.clone(), &self.lua_context) {
                    Ok(component) => component,
                    Err(e) => {
                        return Err(e);
                    },
                }
            },
        };
        let ghost node = component@;
        proof {
            lemma_component_view(component);
        }
        let r = self.add_component(parent, component);
        proof {
            if r is Ok {
                assert(adds(old(self)@, self@, r, parent@, node));
            }
        }
        r
    }

    /// Takes the node at `path` away (see [`Layout::component_delete`]),
    /// and with it the images of its subtree; the images of the nodes that
    /// move go with them. The node that was open stays open where it is
    /// found now; where it went with the subtree, the parent of the subtree
    /// is open instead. With the root, everything goes.
    pub fn delete_component(&mut self, path: Vec<usize>) -> (r: Result<Task, LayoutError>)
        ensures
            deletes(old(self)@, final(self)@, r, path@),
            old(self)@.layout.consistent() ==> final(self)@.layout.consistent(),
    {
        match self.layout.component_delete(path.clone()) {
            Err(e) => Err(e),
            Ok(_) => {
                if path.len() == 0 {
                    self.repository.layout_images = AssocMap::new();
                    self.opened_component = Vec::new();
                    self.new_component_combo_box_selected = None;
                    self.parameter_options = AssocMap::new();
                    Ok(Task::Nothing)
                } else {
                    rekey(&mut self.repository.layout_images, &path, None);
                    let place = match move_path(&self.opened_component, &path, None) {
                        Some(place) => place,
                        None => parent_of(&path),
                    };
                    Ok(Task::Done(AppMessage::OpenComponent(place)))
                }
            },
        }
    }

    /// Moves the node at `path` (see [`Layout::component_move`]), and the
    /// images of the layout with it. The node is opened next, where it now
    /// is.
    pub fn move_component(&mut self, path: Vec<usize>, how: Move) -> (r: Result<Task, LayoutError>)
        ensures
            match r {
                Ok(task) => {
                    let place = old(self)@.layout.target(path@, how);
                    &&& old(self)@.layout.move_error(path@, how) is None
                    &&& opens(r, place)
                    &&& final(self)@ == old(self)@.with_layout(
                        old(self)@.layout.moved_to(path@, place),
                    ).with_images(
                        images_moved_to(old(self)@.repository.layout_images, path@, place),
                    )
                },
                Err(e) => old(self)@.layout.move_error(path@, how) == Some(e) && final(self)@
                    == old(self)@,
            },
            old(self)@.layout.consistent() ==> final(self)@.layout.consistent(),
    {
        match self.layout.component_move(path.clone(), how) {
            Err(e) => Err(e),
            Ok(place) => {
                if !path.same_key(&place) {
                    rekey(&mut self.repository.layout_images, &path, Some(&place));
                }
                Ok(Task::Done(AppMessage::OpenComponent(place)))
            },
        }
    }

    /// Records a value for a parameter of the node at `path`, in place of
    /// the value it had. Something has to be recorded for the node already.
    pub fn modify_parameter(&mut self, path: Vec<usize>, name: String, value: SettingsValue) -> (r:
        Result<(), LayoutError>)
        ensures
            match r {
                Ok(_) => {
                    &&& old(self)@.layout.settings.contains_key(path@)
                    &&& final(self)@ == old(self)@.with_settings(
                        with_parameter(old(self)@.layout.settings, path@, name@, value@),
                    )
                },
                Err(e) => {
                    &&& e == LayoutError::NoSettings
                    &&& !old(self)@.layout.settings.contains_key(path@)
                    &&& final(self)@ == old(self)@
                },
            },
    {
        match self.layout.settings.remove(&path) {
            None => {
                proof {
                    assert(self.layout.settings@ =~= old(self).layout.settings@);
                }
                Err(LayoutError::NoSettings)
            },
            Some(values) => {
                let mut values = values;
                values.insert(name, value);
                self.layout.settings.insert(path, values);
                proof {
                    assert(self.layout.settings@ =~= with_parameter(
                        old(self).layout.settings@,
                        path@,
                        name@,
                        value@,
                    ));
                }
                Ok(())
            },
        }
    }

    /// Records the number that the user typed, if it is one. A text that is
    /// no number changes nothing and is no error.
    pub fn modify_parameter_number(
        &mut self,
        path: Vec<usize>,
        name: String,
        parsed: Option<Number>,
    ) -> (r: Result<(), LayoutError>)
        ensures
            match r {
                Ok(_) => {
                    &&& old(self)@.layout.settings.contains_key(path@)
                    &&& final(self)@ == (match parsed {
                        Some(number) => old(self)@.with_settings(
                            with_parameter(
                                old(self)@.layout.settings,
                                path@,
                                name@,
                                SettingsValueView::Number(number),
                            ),
                        ),
                        None => old(self)@,
                    })
                },
                Err(e) => {
                    &&& e == LayoutError::NoSettings
                    &&& !old(self)@.layout.settings.contains_key(path@)
                    &&& final(self)@ == old(self)@
                },
            },
    {
        match parsed {
            Some(number) => self.modify_parameter(path, name, SettingsValue::Number(number)),
            None => {
                if self.layout.settings.contains_key(&path) {
                    Ok(())
                } else {
                    Err(LayoutError::NoSettings)
                }
            },
        }
    }

    /// Sets one channel of the color of a parameter to the share that the
    /// user typed, if the text was accepted; the channel is the last where
    /// the index is past it. A text that was not accepted changes nothing
    /// and is no error, and nor does a parameter that has no value or whose
    /// value is no color.
    pub fn modify_parameter_color(
        &mut self,
        path: Vec<usize>,
        name: String,
        index: usize,
        channel: Option<Number>,
    ) -> (r: Result<(), LayoutError>)
        ensures
            match r {
                Ok(_) => {
                    &&& old(self)@.layout.settings.contains_key(path@)
                    &&& final(self)@ == (match channel {
                        Some(share) => old(self)@.with_settings(
                            old(self)@.layout.settings.insert(
                                path@,
                                with_color_channel(
                                    old(self)@.layout.settings[path@],
                                    name@,
                                    index,
                                    share,
                                ),
                            ),
                        ),
                        None => old(self)@,
                    })
                },
                Err(e) => {
                    &&& e == LayoutError::NoSettings
                    &&& !old(self)@.layout.settings.contains_key(path@)
                    &&& final(self)@ == old(self)@
                },
            },
    {
        match channel {
            None => {
                if self.layout.settings.contains_key(&path) {
                    Ok(())
                } else {
                    Err(LayoutError::NoSettings)
                }
            },
            Some(share) => {
                match self.layout.settings.remove(&path) {
                    None => {
                        proof {
                            assert(self.layout.settings@ =~= old(self).layout.settings@);
                        }
                        Err(LayoutError::NoSettings)
                    },
                    Some(values) => {
                        let mut values = values;
                        set_color_channel(&mut values, &name, index, share);
                        self.layout.settings.insert(path, values);
                        proof {
                            assert(self.layout.settings@ =~= old(self).layout.settings@.insert(
                                path@,
                                with_color_channel(
                                    old(self).layout.settings@[path@],
                                    name@,
                                    index,
                                    share,
                                ),
                            ));
                        }
                        Ok(())
                    },
                }
            },
        }
    }

    /// Records the bytes of an image for a parameter and keeps the image
    /// for the renderer, both or neither.
    pub fn modify_parameter_image(&mut self, path: Vec<usize>, name: String, bytes: Vec<u8>) -> (r:
        Result<(), LayoutError>)
        ensures
            match r {
                Ok(_) => {
                    &&& old(self)@.layout.settings.contains_key(path@)
                    &&& final(self)@ == old(self)@.with_image(path@, name@, bytes@)
                },
                Err(e) => {
                    &&& e == LayoutError::NoSettings
                    &&& !old(self)@.layout.settings.contains_key(path@)
                    &&& final(self)@ == old(self)@
                },
            },
    {
        let handle = ImageHandle::from_bytes(bytes.clone());
        match self.modify_parameter(path.clone(), name.clone(), SettingsValue::Image(Some(bytes))) {
            Err(e) => Err(e),
            Ok(_) => {
                self.repository.set_layout_image(&path, &name, ImageSlot(Some(handle)));
                Ok(())
            },
        }
    }

    /// Takes a key press that arrived (see [`AppView::assigned`]).
    pub fn assign_hotkey(&mut self, pressed: KeyPress)
        ensures
            final(self)@ == old(self)@.assigned(pressed),
    {
        match self.hotkey_recorder {
            Some(action) => {
                if pressed.escape {
                    self.layout.hotkeys.remove(action);
                } else {
                    self.layout.hotkeys.insert(action, pressed.hotkey);
                }
                self.hotkey_recorder = None;
            },
            None => {},
        }
    }

    /// Takes a message and says what the application is to do next. A
    /// message that is refused leaves the editor as it was.
    pub fn update(&mut self, message: AppMessage) -> (r: Result<Task, LayoutError>)
        ensures
            r is Err ==> final(self)@ == old(self)@,
            old(self)@.layout.consistent() ==> final(self)@.layout.consistent(),
            match message {
                AppMessage::Update => gives(r, Task::PollKeyboard) && final(self)@
                    == old(self)@,
                AppMessage::LoadLayoutOpenPicker => gives(r, Task::PickLayoutToLoad) && final(self)@
                    == old(self)@,
                AppMessage::LoadLayout(path) => gives(r, Task::ReadLayout(path))
                    && final(self)@ == old(self)@,
                AppMessage::SaveLayoutOpenPicker => gives(r, Task::PickLayoutToSave) && final(self)@
                    == old(self)@,
                AppMessage::SaveLayout(path) => gives(r, Task::WriteLayout(path))
                    && final(self)@ == old(self)@,
                AppMessage::TogglePreview => gives(r, Task::Nothing) && final(self)@
                    == (AppView {
                    screen: toggled(old(self).screen, AppScreen::LayoutPreview),
                    ..old(self)@
                }),
                AppMessage::ToggleHotkeyEditor => gives(r, Task::Nothing) && final(self)@
                    == (AppView {
                    screen: toggled(old(self).screen, AppScreen::HotkeyEditor),
                    ..old(self)@
                }),
                AppMessage::LayoutNameChanged(name) => gives(r, Task::Nothing)
                    && final(self)@ == old(self)@.with_layout(
                    LayoutView { name: name@, ..old(self)@.layout },
                ),
                AppMessage::LayoutAuthorChanged(author) => gives(r, Task::Nothing)
                    && final(self)@ == old(self)@.with_layout(
                    LayoutView { author: author@, ..old(self)@.layout },
                ),
                AppMessage::OpenComponent(path) => match old(self)@.layout.content {
                    Some(root) => if root.has_path(path@) {
                        gives(r, Task::Nothing) && final(self)@ == old(self)@.opened(path@)
                    } else {
                        refuses(r, LayoutError::NoSuchChild)
                    },
                    None => gives(r, Task::Nothing) && final(self)@ == old(self)@,
                },
                AppMessage::NewComponentComboBoxSelected(name) => gives(r, Task::Nothing)
                    && final(self)@ == (AppView {
                    new_component_combo_box_selected: Some(name@),
                    ..old(self)@
                }),
                AppMessage::AddNewComponent(parent, name) => adds_new(
                    old(self)@,
                    final(self)@,
                    r,
                    parent@,
                    name@,
                ),
                AppMessage::DeleteComponent(path) => deletes(old(self)@, final(self)@, r, path@),
                AppMessage::MoveComponentUp(path) => moves(*old(self), *final(self), r, path@, Move::Up),
                AppMessage::MoveComponentDown(path) => moves(
                    *old(self),
                    *final(self),
                    r,
                    path@,
                    Move::Down,
                ),
                AppMessage::EnterAboveComponent(path) => moves(
                    *old(self),
                    *final(self),
                    r,
                    path@,
                    Move::EnterAbove,
                ),
                AppMessage::ExitParentComponent(path) => moves(
                    *old(self),
                    *final(self),
                    r,
                    path@,
                    Move::ExitParent,
                ),
                AppMessage::ModifyParameterBoolean(path, name, value) => sets(
                    *old(self),
                    *final(self),
                    r,
                    path@,
                    name@,
                    Some(SettingsValueView::Boolean(value)),
                ),
                AppMessage::ModifyParameterString(path, name, value) => sets(
                    *old(self),
                    *final(self),
                    r,
                    path@,
                    name@,
                    Some(SettingsValueView::String(value@)),
                ),
                AppMessage::ModifyParameterOptions(path, name, value) => sets(
                    *old(self),
                    *final(self),
                    r,
                    path@,
                    name@,
                    Some(SettingsValueView::Options(value@)),
                ),
                AppMessage::ModifyParameterNumber(path, name, parsed) => sets(
                    *old(self),
                    *final(self),
                    r,
                    path@,
                    name@,
                    match parsed {
                        Some(number) => Some(SettingsValueView::Number(number)),
                        None => None,
                    },
                ),
                AppMessage::ModifyParameterNumberRange(path, name, value) => sets(
                    *old(self),
                    *final(self),
                    r,
                    path@,
                    name@,
                    Some(SettingsValueView::NumberRange(value)),
                ),
                AppMessage::ModifyParameterColor(path, name, index, channel) => if recorded_for(
                    *old(self),
                    path@,
                ) {
                    gives(r, Task::Nothing) && final(self)@ == (match channel {
                        Some(share) => old(self)@.with_settings(
                            old(self)@.layout.settings.insert(
                                path@,
                                with_color_channel(
                                    old(self)@.layout.settings[path@],
                                    name@,
                                    index,
                                    share,
                                ),
                            ),
                        ),
                        None => old(self)@,
                    })
                } else {
                    refuses(r, LayoutError::NoSettings)
                },
                AppMessage::ModifyParameterImageOpen(path, name) => gives(
                    r,
                    Task::PickImage(path, name),
                ) && final(self)@ == old(self)@,
                AppMessage::ModifyParameterImageSubmit(path, name, bytes) => if recorded_for(
                    *old(self),
                    path@,
                ) {
                    gives(r, Task::Nothing) && final(self)@ == old(self)@.with_image(
                        path@,
                        name@,
                        bytes@,
                    )
                } else {
                    refuses(r, LayoutError::NoSettings)
                },
                AppMessage::StartRecordingHotkey(action) => gives(r, Task::Nothing)
                    && final(self)@ == (AppView { hotkey_recorder: Some(action), ..old(self)@ }),
                AppMessage::AssignHotkey(pressed) => gives(r, Task::Nothing) && final(self)@ == old(
                    self,
                )@.assigned(pressed),
            },
    {
        match message {
            AppMessage::Update => Ok(Task::PollKeyboard),
            AppMessage::LoadLayoutOpenPicker => Ok(Task::PickLayoutToLoad),
            AppMessage::LoadLayout(path) => Ok(Task::ReadLayout(path)),
            AppMessage::SaveLayoutOpenPicker => Ok(Task::PickLayoutToSave),
            AppMessage::SaveLayout(path) => Ok(Task::WriteLayout(path)),
            AppMessage::TogglePreview => {
                self.toggle_preview();
                Ok(Task::Nothing)
            },
            AppMessage::ToggleHotkeyEditor => {
                self.toggle_hotkey_editor();
                Ok(Task::Nothing)
            },
            AppMessage::LayoutNameChanged(name) => {
                self.layout.name = name;
                Ok(Task::Nothing)
            },
            AppMessage::LayoutAuthorChanged(author) => {
                self.layout.author = author;
                Ok(Task::Nothing)
            },
            AppMessage::OpenComponent(path) => {
                match self.open_component(path) {
                    Ok(_) => Ok(Task::Nothing),
                    Err(e) => Err(e),
                }
            },
            AppMessage::NewComponentComboBoxSelected(name) => {
                self.new_component_combo_box_selected = Some(name);
                Ok(Task::Nothing)
            },
            AppMessage::AddNewComponent(parent, name) => self.add_new_component(parent, name),
            AppMessage::DeleteComponent(path) => self.delete_component(path),
            AppMessage::MoveComponentUp(path) => self.move_component(path, Move::Up),
            AppMessage::MoveComponentDown(path) => self.move_component(path, Move::Down),
            AppMessage::EnterAboveComponent(path) => self.move_component(path, Move::EnterAbove),
            AppMessage::ExitParentComponent(path) => self.move_component(path, Move::ExitParent),
            AppMessage::ModifyParameterBoolean(path, name, value) => {
                match self.modify_parameter(path, name, SettingsValue::Boolean(value)) {
                    Ok(_) => Ok(Task::Nothing),
                    Err(e) => Err(e),
                }
            },
            AppMessage::ModifyParameterString(path, name, value) => {
                match self.modify_parameter(path, name, SettingsValue::String(value)) {
                    Ok(_) => Ok(Task::Nothing),
                    Err(e) => Err(e),
                }
            },
            AppMessage::ModifyParameterOptions(path, name, value) => {
                match self.modify_parameter(path, name, SettingsValue::Options(value)) {
                    Ok(_) => Ok(Task::Nothing),
                    Err(e) => Err(e),
                }
            },
            AppMessage::ModifyParameterNumber(path, name, parsed) => {
                match self.modify_parameter_number(path, name, parsed) {
                    Ok(_) => Ok(Task::Nothing),
                    Err(e) => Err(e),
                }
            },
            AppMessage::ModifyParameterNumberRange(path, name, value) => {
                match self.modify_parameter(path, name, SettingsValue::NumberRange(value)) {
                    Ok(_) => Ok(Task::Nothing),
                    Err(e) => Err(e),
                }
            },
            AppMessage::ModifyParameterColor(path, name, index, channel) => {
                match self.modify_parameter_color(path, name, index, channel) {
                    Ok(_) => Ok(Task::Nothing),
                    Err(e) => Err(e),
                }
            },
            AppMessage::ModifyParameterImageOpen(path, name) => Ok(Task::PickImage(path, name)),
            AppMessage::ModifyParameterImageSubmit(path, name, bytes) => {
                match self.modify_parameter_image(path, name, bytes) {
                    Ok(_) => Ok(Task::Nothing),
                    Err(e) => Err(e),
                }
            },
            AppMessage::StartRecordingHotkey(action) => {
                self.hotkey_recorder = Some(action);
                Ok(Task::Nothing)
            },
            AppMessage::AssignHotkey(pressed) => {
                self.assign_hotkey(pressed);
                Ok(Task::Nothing)
            },
        }
    }
}

/// What adding a component does (see [`App::add_component`]): the node
/// comes to stand as the last child of the node at `parent`, or as the root
/// where there was none, and is opened next; or the parent is not there and
/// nothing changes.
pub open spec fn adds(
    before: AppView,
    after: AppView,
    r: Result<Task, LayoutError>,
    parent: Seq<usize>,
    node: ComponentView,
) -> bool {
    match r {
        Ok(Task::Done(AppMessage::OpenComponent(place))) => {
            &&& match before.layout.content {
                Some(root) => root.has_path(parent) && place@ == parent.push(
                    root.node_at(parent).children.len() as usize,
                ),
                None => parent.len() == 0 && place@ == parent,
            }
            &&& after == before.with_layout(before.layout.with_addition(place@, node)).with_images(
                before.repository.layout_images.insert(place@, images_of(defaults_of(node.parameters))),
            )
        },
        Ok(_) => false,
        Err(e) => {
            &&& after == before
            &&& match before.layout.content {
                Some(root) => !root.has_path(parent) && e == LayoutError::NoSuchChild,
                None => parent.len() > 0 && e == LayoutError::NoContent,
            }
        },
    }
}

/// What adding the component of a name does (see
/// [`App::add_new_component`]). Where it is done, a script of the name is
/// installed, and a node without children that has a build function is
/// added as [`adds`] says. Where it is refused, nothing changes; the reason
/// is that no script of the name is installed, exactly where none is, and
/// else what the runtime said of the script or the reason for which
/// [`adds`] refuses.
pub open spec fn adds_new(
    before: AppView,
    after: AppView,
    r: Result<Task, LayoutError>,
    parent: Seq<usize>,
    name: Seq<char>,
) -> bool {
    match r {
        Ok(_) => {
            &&& before.components.contains_key(name)
            &&& exists|node: ComponentView| #[trigger]
                adds(before, after, r, parent, node) && node.children.len() == 0 && node.widget is Some
        },
        Err(e) => {
            &&& after == before
            &&& if !before.components.contains_key(name) {
                e == LayoutError::UnknownComponent
            } else {
                e is Script || match before.layout.content {
                    Some(root) => !root.has_path(parent) && e == LayoutError::NoSuchChild,
                    None => parent.len() > 0 && e == LayoutError::NoContent,
                }
            }
        },
    }
}

/// What taking the node at `path` away does (see
/// [`App::delete_component`]).
pub open spec fn deletes(
    before: AppView,
    after: AppView,
    r: Result<Task, LayoutError>,
    path: Seq<usize>,
) -> bool {
    match r {
        Ok(task) => {
            let place = opened_after_delete(before.opened_component, path);
            if path.len() == 0 {
                &&& task == Task::Nothing
                &&& after == (AppView {
                    opened_component: place,
                    new_component_combo_box_selected: None,
                    parameter_options: Map::empty(),
                    ..before.with_layout(before.layout.cleared()).with_images(Map::empty())
                })
            } else {
                &&& before.layout.child_error(path) is None
                &&& opens(r, place)
                &&& after == before.with_layout(before.layout.with_removal(path)).with_images(
                    rekeyed(before.repository.layout_images, path, None),
                )
            }
        },
        Err(e) => {
            &&& path.len() > 0
            &&& before.layout.child_error(path) == Some(e)
            &&& after == before
        },
    }
}

/// What a message to move a node does (see [`App::move_component`]).
pub open spec fn moves(
    before: App,
    after: App,
    r: Result<Task, LayoutError>,
    path: Seq<usize>,
    how: Move,
) -> bool {
    match before@.layout.move_error(path, how) {
        Some(e) => refuses(r, e),
        None => {
            let place = before@.layout.target(path, how);
            &&& opens(r, place)
            &&& after@ == before@.with_layout(before@.layout.moved_to(path, place)).with_images(
                images_moved_to(before@.repository.layout_images, path, place),
            )
        },
    }
}

/// What a message to set a parameter does: with a value, it is recorded;
/// without one, nothing changes. Either way something has to be recorded
/// for the node already.
pub open spec fn sets(
    before: App,
    after: App,
    r: Result<Task, LayoutError>,
    path: Seq<usize>,
    name: Seq<char>,
    value: Option<SettingsValueView>,
) -> bool {
    if before@.layout.settings.contains_key(path) {
        gives(r, Task::Nothing) && after@ == (match value {
            Some(v) => before@.with_settings(with_parameter(before@.layout.settings, path, name, v)),
            None => before@,
        })
    } else {
        refuses(r, LayoutError::NoSettings)
    }
}

} // verus!
