use handy_keys::{Hotkey, Key, Modifiers};
use mlua::{AnyUserData, Function, Lua, Table, UserDataMethods};
use yast_core::editor::{App, AppMessage, AppScreen, KeyPress, Task};
use yast_core::error::LayoutError;
use yast_core::layout::component::{catalog_of, script_source, Component};
use yast_core::layout::settings::{
    missing_setting, setting_value, ComponentSettings, ScriptValue, SettingsValue,
};
use yast_core::layout::{HotkeyAction, Layout};
use yast_core::lua::settings::{
    SettingsFactory, SettingsFactoryEntry, SettingsFactoryEntryContent, SettingsFactoryValue,
};
use yast_core::lua::widgets::column::LuaWidgetColumn;
use yast_core::lua::widgets::text::LuaWidgetText;
use yast_core::lua::widgets::LuaWidget;
use yast_core::lua::{extend_search_path, Catalog, LuaContext};
use yast_core::number::Number;
use yast_core::repository::{ComponentImages, ImageHandle, ImageSlot, Repository};

const NOTICE: &str = "couldn't build layout, please check the logs for full details";

fn num(value: f64) -> Number {
    Number::from_bits(value.to_bits())
}

fn value_of(number: Number) -> f64 {
    f64::from_bits(number.to_bits())
}

fn key_of(lua: &Lua, f: Option<Function>) -> mlua::Result<Option<mlua::RegistryKey>> {
    match f {
        Some(f) => Ok(Some(lua.create_registry_value(f)?)),
        None => Ok(None),
    }
}

/// A copy of the schema that a script holds: a script may go on from one
/// schema more than once.
fn schema_of(lua: &Lua, this: &AnyUserData) -> mlua::Result<SettingsFactory> {
    let held = this.borrow::<SettingsFactory>()?;
    let mut entries = Vec::new();
    for entry in held.0.iter() {
        let show_if = match &entry.show_if {
            Some(key) => key_of(lua, Some(lua.registry_value::<Function>(key)?))?,
            None => None,
        };
        entries.push(SettingsFactoryEntry { content: entry.content.clone(), show_if });
    }
    Ok(SettingsFactory(entries))
}

/// An interpreter with as much of the script interface as the tests use.
fn context() -> LuaContext {
    let context = LuaContext::init("/data").unwrap();
    let lua = context.lua();
    lua.register_userdata_type::<SettingsFactory>(|reg| {
        reg.add_function(
            "header",
            |lua, (this, title, show_if): (AnyUserData, String, Option<Function>)| {
                let schema = schema_of(lua, &this)?;
                lua.create_any_userdata(schema.header(title, key_of(lua, show_if)?))
            },
        );
        reg.add_function(
            "boolean",
            |lua, (this, name, default, show_if): (AnyUserData, String, bool, Option<Function>)| {
                let schema = schema_of(lua, &this)?;
                lua.create_any_userdata(schema.boolean(name, default, key_of(lua, show_if)?))
            },
        );
        reg.add_function(
            "string",
            |lua, (this, name, default, show_if): (AnyUserData, String, String, Option<Function>)| {
                let schema = schema_of(lua, &this)?;
                lua.create_any_userdata(schema.string(name, default, key_of(lua, show_if)?))
            },
        );
        reg.add_function(
            "number",
            |lua, (this, name, default, show_if): (AnyUserData, String, f64, Option<Function>)| {
                let schema = schema_of(lua, &this)?;
                lua.create_any_userdata(schema.number(name, num(default), key_of(lua, show_if)?))
            },
        );
        reg.add_function(
            "number_range",
            |lua,
             (this, name, min, max, step, default): (AnyUserData, String, f64, f64, f64, f64)| {
                let schema = schema_of(lua, &this)?;
                lua.create_any_userdata(schema.number_range(
                    name,
                    num(min),
                    num(max),
                    num(step),
                    num(default),
                    None,
                ))
            },
        );
        reg.add_function(
            "color",
            |lua, (this, name, r, g, b, a): (AnyUserData, String, f64, f64, f64, f64)| {
                let schema = schema_of(lua, &this)?;
                lua.create_any_userdata(schema.color(name, num(r), num(g), num(b), num(a), None))
            },
        );
        reg.add_function("image", |lua, (this, name): (AnyUserData, String)| {
            let schema = schema_of(lua, &this)?;
            lua.create_any_userdata(schema.image(name, None))
        });
    })
    .unwrap();
    let globals = lua.globals();
    globals
        .set(
            "settings_factory",
            lua.create_function(|lua, ()| lua.create_any_userdata(SettingsFactory::default()))
                .unwrap(),
        )
        .unwrap();
    globals
        .set(
            "text",
            lua.create_function(|lua, content: String| {
                lua.create_any_userdata(LuaWidgetText::new(content).into_widget())
            })
            .unwrap(),
        )
        .unwrap();
    globals
        .set(
            "column",
            lua.create_function(|lua, inner: Vec<AnyUserData>| {
                let mut widgets = Vec::new();
                for w in inner {
                    widgets.push(w.borrow::<LuaWidget>()?.clone());
                }
                lua.create_any_userdata(LuaWidgetColumn::new(widgets).into_widget())
            })
            .unwrap(),
        )
        .unwrap();
    globals
        .set(
            "child",
            lua.create_function(|lua, index: usize| match LuaWidget::internal_child(index) {
                Ok(w) => lua.create_any_userdata(w),
                Err(e) => Err(mlua::Error::runtime(e.message())),
            })
            .unwrap(),
        )
        .unwrap();
    context
}

const TIMER_TEXT: &str = r#"
return {
  name = "Timer Text",
  author = "tester",
  settings = function()
    return settings_factory()
      :header("Look")
      :string("title", "Time")
      :number("count", 3)
      :number_range("size", 0, 100, 5, 5)
      :color("tint", 1, 0.5, 0.25, 1)
      :boolean("bold", false, function(setting) return setting("count") > 2 end)
      :image("icon")
  end,
  widget = function(env)
    local icon = "none"
    if env.setting("icon") ~= nil then icon = "some" end
    return text(env.setting("title") .. "/" .. tostring(env.setting("count") + 1)
      .. "/" .. tostring(env.setting("tint")[2]) .. "/" .. tostring(env.setting("bold"))
      .. "/" .. icon .. "/" .. tostring(env.children.len))
  end,
}
"#;

const LIST: &str = r#"
return {
  name = "List",
  author = "tester",
  settings = function() return settings_factory():number_range("size", 0, 100, 5, 5) end,
  widget = function(env)
    local inner = {}
    for i = 1, env.children.len do inner[i] = child(i) end
    inner[#inner + 1] = text("end of " .. tostring(env.children.len))
    return column(inner)
  end,
}
"#;

const BROKEN: &str = r#"
return {
  name = "Broken",
  author = "tester",
  settings = function() return settings_factory() end,
  widget = function(env) return text(env.setting("nope")) end,
}
"#;

fn catalog() -> Catalog {
    catalog_of(vec![
        (String::from("Timer Text"), TIMER_TEXT.to_string()),
        (String::from("List"), LIST.to_string()),
        (String::from("Broken"), BROKEN.to_string()),
    ])
}

fn content_of(widget: &LuaWidget) -> Option<&str> {
    match widget {
        LuaWidget::Text(t) => Some(t.content.as_str()),
        _ => None,
    }
}

fn app() -> App {
    App::new(catalog(), context(), 10)
}

fn shape(name: &str, children: Vec<Component>) -> Component {
    Component {
        name: name.to_string(),
        author: String::new(),
        widget: None,
        parameters: SettingsFactory::default(),
        children,
    }
}

#[test]
fn the_search_path_is_extended() {
    assert_eq!(
        extend_search_path(String::from("./?.lua"), "/home/me/.local/share"),
        "./?.lua;/home/me/.local/share/yast/components/?.lua;\
         /home/me/.local/share/yast/components/?/init.lua;\
         /home/me/.local/share/yast/lib/?.lua;/home/me/.local/share/yast/lib/?/init.lua"
    );
    let context = LuaContext::init("/data").unwrap();
    let package: Table = context.lua().globals().get("package").unwrap();
    let path: String = package.get("path").unwrap();
    assert!(path.ends_with(
        ";/data/yast/components/?.lua;/data/yast/components/?/init.lua;/data/yast/lib/?.lua;/data/yast/lib/?/init.lua"
    ));
    assert!(path.len() > 100);
}

#[test]
fn a_component_is_made_from_its_script() {
    let context = context();
    let node = Component::from_str(TIMER_TEXT.to_string(), &context).unwrap();
    assert_eq!(node.get_name(), "Timer Text");
    assert_eq!(node.get_author(), "tester");
    assert!(node.widget.is_some());
    assert_eq!(node.get_children().unwrap().len(), 0);
    let schema = node.get_parameters();
    assert_eq!(schema.0.len(), 7);
    assert!(matches!(&schema.0[0].content, SettingsFactoryEntryContent::Header(t) if t == "Look"));
    assert!(matches!(
        &schema.0[3].content,
        SettingsFactoryEntryContent::Value(n, SettingsFactoryValue::NumberRange(lo, hi, step, d))
            if n == "size" && value_of(*lo) == 0.0 && value_of(*hi) == 100.0
                && value_of(*step) == 5.0 && value_of(*d) == 5.0
    ));
    assert!(schema.0[5].show_if.is_some());
    assert!(schema.0[4].show_if.is_none());
}

#[test]
fn a_script_that_fails_makes_no_component() {
    let context = context();
    for bad in ["return 1 +", "error('no')", "return 3", "return { name = 'x' }"] {
        assert!(matches!(
            Component::from_str(bad.to_string(), &context),
            Err(LayoutError::Script(_))
        ));
    }
}

#[test]
fn scripts_are_listed_by_the_name_they_give_themselves() {
    let context = context();
    let listed = Component::import_all_from_sources(
        vec![LIST.to_string(), TIMER_TEXT.to_string()],
        &context,
    )
    .unwrap();
    assert_eq!(listed.len(), 2);
    assert_eq!(listed.get(&String::from("List")).unwrap(), LIST);
    assert_eq!(listed.get(&String::from("Timer Text")).unwrap(), TIMER_TEXT);
    assert!(matches!(
        Component::import_all_from_sources(vec![LIST.to_string(), String::from("return 1 +")], &context),
        Err(LayoutError::Script(_))
    ));
    assert_eq!(Component::import_all_from_sources(vec![], &context).unwrap().len(), 0);
}

#[test]
fn a_later_text_of_a_name_replaces_an_earlier_one_in_the_catalog() {
    let listed = catalog_of(vec![
        (String::from("a"), String::from("one")),
        (String::from("b"), String::from("two")),
        (String::from("a"), String::from("three")),
    ]);
    assert_eq!(listed.len(), 2);
    assert_eq!(listed.get(&String::from("a")).unwrap(), "three");
    assert_eq!(listed.get(&String::from("b")).unwrap(), "two");
}

#[test]
fn reload_reconciles_what_was_recorded() {
    // Saved with a schema NumberRange(0, 10, 1, default 5) and the value 7;
    // the installed script now declares NumberRange(0, 100, 5, default 5).
    let context = context();
    let mut content = Layout::default();
    content.content = Some(shape("List", vec![]));
    let mut recorded = ComponentSettings::new();
    recorded.insert(String::from("size"), SettingsValue::NumberRange(num(7.0)));
    recorded.insert(String::from("old"), SettingsValue::Boolean(true));
    content.settings.insert(vec![], recorded);
    let mut repository = Repository::new();
    let (layout, failures) = Layout::load(&mut repository, &catalog(), &context, content);
    assert!(failures.is_empty());
    let root = layout.content.as_ref().unwrap();
    assert!(root.widget.is_some());
    assert!(matches!(
        &root.parameters.0[0].content,
        SettingsFactoryEntryContent::Value(n, SettingsFactoryValue::NumberRange(lo, hi, step, d))
            if n == "size" && value_of(*lo) == 0.0 && value_of(*hi) == 100.0
                && value_of(*step) == 5.0 && value_of(*d) == 5.0
    ));
    let now = layout.settings.get(&vec![]).unwrap();
    assert_eq!(now.len(), 1);
    assert!(matches!(now.get(&String::from("size")), Some(SettingsValue::NumberRange(n)) if value_of(*n) == 7.0));
}

#[test]
fn reload_goes_on_past_a_node_that_cannot_be_bound() {
    let context = context();
    let mut content = Layout::default();
    content.name = String::from("mine");
    content.content = Some(shape(
        "List",
        vec![shape("Missing", vec![shape("Timer Text", vec![])]), shape("Timer Text", vec![])],
    ));
    let mut recorded = ComponentSettings::new();
    recorded.insert(String::from("kept"), SettingsValue::Boolean(true));
    content.settings.insert(vec![0], recorded);
    let mut repository = Repository::new();
    let (layout, failures) = Layout::load(&mut repository, &catalog(), &context, content);
    assert_eq!(layout.name, "mine");
    assert_eq!(failures.len(), 1);
    assert_eq!(failures[0].0, vec![0]);
    assert!(matches!(failures[0].1, LayoutError::UnknownComponent));
    let root = layout.content.as_ref().unwrap();
    assert!(root.widget.is_some());
    assert!(root.children[0].widget.is_none());
    assert!(root.children[0].children[0].widget.is_some());
    assert!(root.children[1].widget.is_some());
    assert_eq!(root.children[0].name, "Missing");
    // What was recorded for the node that could not be bound stays.
    assert!(layout.settings.get(&vec![0]).unwrap().get(&String::from("kept")).is_some());
    // The nodes that were bound have their defaults.
    assert!(matches!(
        layout.settings.get(&vec![0, 0]).unwrap().get(&String::from("title")),
        Some(SettingsValue::String(s)) if s == "Time"
    ));
    assert_eq!(layout.settings.get(&vec![1]).unwrap().len(), 6);
    // Image parameters have a place in the repository, without an image.
    assert!(matches!(repository.layout_image(&vec![1], &String::from("icon")), Some(ImageSlot(None))));
    assert!(repository.layout_image(&vec![1], &String::from("title")).is_none());
    // The broken node shows the notice, the others are built.
    match layout.build(&context, &repository) {
        LuaWidget::Column(c) => {
            assert_eq!(c.inner.len(), 3);
            assert_eq!(content_of(&c.inner[0]), Some(NOTICE));
            assert_eq!(content_of(&c.inner[1]), Some("Time/4/0.5/false/none/0"));
            assert_eq!(content_of(&c.inner[2]), Some("end of 2"));
        }
        _ => panic!("no column"),
    }
}

#[test]
fn load_hands_recorded_images_to_the_repository() {
    let context = context();
    let mut content = Layout::default();
    let mut recorded = ComponentSettings::new();
    recorded.insert(String::from("icon"), SettingsValue::Image(Some(vec![1, 2, 3])));
    recorded.insert(String::from("other"), SettingsValue::Image(None));
    recorded.insert(String::from("title"), SettingsValue::String(String::from("x")));
    content.settings.insert(vec![4, 2], recorded);
    let mut repository = Repository::new();
    let (layout, failures) = Layout::load(&mut repository, &catalog(), &context, content);
    assert!(layout.content.is_none());
    assert!(failures.is_empty());
    assert!(matches!(
        repository.layout_image(&vec![4, 2], &String::from("icon")),
        Some(ImageSlot(Some(h))) if h.bytes == vec![1, 2, 3]
    ));
    assert!(matches!(repository.layout_image(&vec![4, 2], &String::from("other")), Some(ImageSlot(None))));
    assert!(repository.layout_image(&vec![4, 2], &String::from("title")).is_none());
    assert!(matches!(layout.build(&context, &repository), LuaWidget::Space(_)));
}

#[test]
fn load_keeps_the_recorded_images_of_a_bound_tree() {
    let context = context();
    let mut content = Layout::default();
    content.content = Some(shape("Timer Text", vec![shape("Missing", vec![])]));
    let mut at_root = ComponentSettings::new();
    at_root.insert(String::from("icon"), SettingsValue::Image(Some(vec![1, 2, 3])));
    content.settings.insert(vec![], at_root);
    let mut at_child = ComponentSettings::new();
    at_child.insert(String::from("picture"), SettingsValue::Image(Some(vec![7])));
    content.settings.insert(vec![0], at_child);
    let mut nowhere = ComponentSettings::new();
    nowhere.insert(String::from("stray"), SettingsValue::Image(None));
    content.settings.insert(vec![5], nowhere);
    let mut repository = Repository::new();
    let (layout, failures) = Layout::load(&mut repository, &catalog(), &context, content);
    assert_eq!(failures.len(), 1);
    assert_eq!(failures[0].0, vec![0]);
    // The node that was bound keeps the image that was recorded for it.
    assert!(matches!(
        layout.settings.get(&vec![]).unwrap().get(&String::from("icon")),
        Some(SettingsValue::Image(Some(b))) if *b == vec![1, 2, 3]
    ));
    assert!(matches!(
        repository.layout_image(&vec![], &String::from("icon")),
        Some(ImageSlot(Some(h))) if h.bytes == vec![1, 2, 3]
    ));
    assert!(repository.layout_image(&vec![], &String::from("title")).is_none());
    // So does the node that was not, and a path that leads to no node.
    assert!(matches!(
        repository.layout_image(&vec![0], &String::from("picture")),
        Some(ImageSlot(Some(h))) if h.bytes == vec![7]
    ));
    assert!(matches!(repository.layout_image(&vec![5], &String::from("stray")), Some(ImageSlot(None))));
    assert_eq!(layout.settings.get(&vec![5]).unwrap().len(), 1);
}

#[test]
fn the_script_of_a_name_is_looked_up_in_the_catalog() {
    let context = context();
    let catalog = catalog();
    assert_eq!(script_source(&catalog, &String::from("List")).unwrap(), LIST);
    assert!(matches!(
        script_source(&catalog, &String::from("Missing")),
        Err(LayoutError::UnknownComponent)
    ));
    let known = shape("List", vec![]);
    let script = known.evaluated(&catalog, &context).unwrap();
    assert_eq!(script.name, "List");
    let unknown = shape("Missing", vec![]);
    assert!(matches!(unknown.evaluated(&catalog, &context), Err(LayoutError::UnknownComponent)));
}

#[test]
fn adding_a_component_of_an_unknown_name_is_refused_for_that_reason_only() {
    let mut app = app();
    assert!(matches!(
        app.add_new_component(vec![], String::from("Missing")),
        Err(LayoutError::UnknownComponent)
    ));
    assert!(app.layout.content.is_none());
    // A name that is installed is refused for the parent.
    assert!(matches!(
        app.add_new_component(vec![0], String::from("List")),
        Err(LayoutError::NoContent)
    ));
    app.add_new_component(vec![], String::from("List")).unwrap();
    assert!(matches!(
        app.add_new_component(vec![3], String::from("List")),
        Err(LayoutError::NoSuchChild)
    ));
    assert_eq!(app.layout.content.as_ref().unwrap().children.len(), 0);
}

#[test]
fn build_hands_the_recorded_values_to_the_script() {
    let mut app = app();
    app.update(AppMessage::AddNewComponent(vec![], String::from("Timer Text"))).unwrap();
    let built = app.layout.build(&app.lua_context, &app.repository);
    assert_eq!(content_of(&built), Some("Time/4/0.5/false/none/0"));
    app.update(AppMessage::ModifyParameterString(vec![], String::from("title"), String::from("Go"))).unwrap();
    app.update(AppMessage::ModifyParameterNumber(vec![], String::from("count"), Some(num(41.0)))).unwrap();
    app.update(AppMessage::ModifyParameterBoolean(vec![], String::from("bold"), true)).unwrap();
    app.update(AppMessage::ModifyParameterColor(vec![], String::from("tint"), 1, Some(num(0.75)))).unwrap();
    app.update(AppMessage::ModifyParameterImageSubmit(vec![], String::from("icon"), vec![7, 7])).unwrap();
    let built = app.layout.build(&app.lua_context, &app.repository);
    assert_eq!(content_of(&built), Some("Go/42/0.75/true/some/0"));
}

#[test]
fn a_component_without_a_build_function_is_not_built() {
    let context = context();
    let node = shape("List", vec![]);
    let r = node.build(&context, vec![], &yast_core::layout::settings::LayoutSettings::new(), &Repository::new());
    assert!(matches!(r, Err(LayoutError::NoWidget)));
}

#[test]
fn a_missing_setting_fails_the_build_and_shows_the_notice() {
    let mut app = app();
    app.update(AppMessage::AddNewComponent(vec![], String::from("Broken"))).unwrap();
    let root = app.layout.content.as_ref().unwrap();
    let r = root.build(&app.lua_context, vec![], &app.layout.settings, &app.repository);
    match r {
        Err(LayoutError::Script(message)) => assert!(message.contains("couldn't find setting nope in component")),
        _ => panic!("built"),
    }
    assert_eq!(content_of(&app.layout.build(&app.lua_context, &app.repository)), Some(NOTICE));
    assert_eq!(missing_setting("nope"), "couldn't find setting nope in component");
}

#[test]
fn a_function_of_another_interpreter_is_refused() {
    let first = context();
    let second = context();
    let node = Component::from_str(LIST.to_string(), &first).unwrap();
    let r = node.build(&second, vec![], &yast_core::layout::settings::LayoutSettings::new(), &Repository::new());
    assert!(matches!(r, Err(LayoutError::Script(_))));
}

#[test]
fn visibility_asks_the_predicate() {
    let context = context();
    let node = Component::from_str(TIMER_TEXT.to_string(), &context).unwrap();
    let images = ComponentImages::new();
    let mut values = node.parameters.initialize_defaults();
    let bold = &node.parameters.0[5];
    let title = &node.parameters.0[1];
    // count is 3: more than 2.
    assert!(bold.is_visible(&context, &values, &images));
    assert!(title.is_visible(&context, &values, &images));
    values.insert(String::from("count"), SettingsValue::Number(num(1.0)));
    assert!(!bold.is_visible(&context, &values, &images));
    // A predicate that fails leaves the line visible.
    values.remove(&String::from("count"));
    assert!(bold.is_visible(&context, &values, &images));
}

#[test]
fn end_to_end() {
    let mut app = app();
    assert!(app.layout.content.is_none());
    assert_eq!(app.screen, AppScreen::LayoutEditor);
    assert_eq!(app.repository.splits_icon.len(), 10);

    // Insert "Timer Text" at the root.
    let task = app.update(AppMessage::AddNewComponent(vec![], String::from("Timer Text"))).unwrap();
    assert!(matches!(&task, Task::Done(AppMessage::OpenComponent(p)) if p.is_empty()));
    let root = app.layout.content.as_ref().unwrap();
    assert_eq!(root.name, "Timer Text");
    assert_eq!(root.children.len(), 0);
    let defaults = root.parameters.initialize_defaults();
    let recorded = app.layout.settings.get(&vec![]).unwrap();
    assert_eq!(recorded.len(), defaults.len());
    assert_eq!(recorded.len(), 6);
    assert!(matches!(recorded.get(&String::from("size")), Some(SettingsValue::NumberRange(n)) if value_of(*n) == 5.0));
    assert!(matches!(app.repository.layout_image(&vec![], &String::from("icon")), Some(ImageSlot(None))));
    if let Task::Done(next) = task {
        assert!(matches!(app.update(next), Ok(Task::Nothing)));
    }
    assert!(app.opened_component.is_empty());

    // Insert a child, which comes to stand at [0].
    let task = app.update(AppMessage::AddNewComponent(vec![], String::from("List"))).unwrap();
    assert!(matches!(&task, Task::Done(AppMessage::OpenComponent(p)) if *p == vec![0]));
    assert_eq!(app.layout.content.as_ref().unwrap().children.len(), 1);
    assert_eq!(app.layout.settings.get(&vec![0]).unwrap().len(), 1);
    assert_eq!(app.layout.settings.len(), 2);

    // Moving the only child down changes nothing.
    let task = app.update(AppMessage::MoveComponentDown(vec![0])).unwrap();
    assert!(matches!(&task, Task::Done(AppMessage::OpenComponent(p)) if *p == vec![0]));
    assert_eq!(app.layout.content.as_ref().unwrap().children[0].name, "List");
    assert_eq!(app.layout.settings.len(), 2);
    assert_eq!(app.layout.settings.get(&vec![0]).unwrap().len(), 1);
    assert_eq!(app.layout.settings.get(&vec![]).unwrap().len(), 6);

    // Deleting the root leaves nothing.
    let task = app.update(AppMessage::DeleteComponent(vec![])).unwrap();
    assert!(matches!(task, Task::Nothing));
    assert!(app.layout.content.is_none());
    assert_eq!(app.layout.settings.len(), 0);
    assert_eq!(app.repository.layout_images.len(), 0);
    assert!(app.opened_component.is_empty());
}

#[test]
fn an_unknown_component_is_not_added() {
    let mut app = app();
    let r = app.update(AppMessage::AddNewComponent(vec![], String::from("Nope")));
    assert!(matches!(r, Err(LayoutError::UnknownComponent)));
    assert!(app.layout.content.is_none());
    assert_eq!(app.layout.settings.len(), 0);
}

#[test]
fn a_text_that_is_no_number_changes_nothing() {
    let mut app = app();
    app.update(AppMessage::AddNewComponent(vec![], String::from("Timer Text"))).unwrap();
    let typed = "abc";
    let parsed = typed.parse::<f64>().ok().map(num);
    assert!(parsed.is_none());
    let r = app.update(AppMessage::ModifyParameterNumber(vec![], String::from("count"), parsed));
    assert!(matches!(r, Ok(Task::Nothing)));
    assert!(matches!(
        app.layout.settings.get(&vec![]).unwrap().get(&String::from("count")),
        Some(SettingsValue::Number(n)) if value_of(*n) == 3.0
    ));
    let parsed = "12.5".parse::<f64>().ok().map(num);
    app.update(AppMessage::ModifyParameterNumber(vec![], String::from("count"), parsed)).unwrap();
    assert!(matches!(
        app.layout.settings.get(&vec![]).unwrap().get(&String::from("count")),
        Some(SettingsValue::Number(n)) if value_of(*n) == 12.5
    ));
}

/// What the application makes of the text of a color channel.
fn channel(typed: &str) -> Option<Number> {
    match typed.parse::<f32>() {
        Ok(parsed) if parsed <= 255. => Some(num((parsed / 255.) as f64)),
        _ => None,
    }
}

fn tint(app: &App) -> Vec<f64> {
    match app.layout.settings.get(&vec![]).unwrap().get(&String::from("tint")) {
        Some(SettingsValue::Color(c)) => c.iter().map(|n| value_of(*n)).collect(),
        _ => panic!("no color"),
    }
}

#[test]
fn color_channels() {
    let mut app = app();
    app.update(AppMessage::AddNewComponent(vec![], String::from("Timer Text"))).unwrap();
    assert_eq!(tint(&app), vec![1.0, 0.5, 0.25, 1.0]);
    // 300 is more than the full value: rejected.
    let r = app.update(AppMessage::ModifyParameterColor(vec![], String::from("tint"), 1, channel("300")));
    assert!(matches!(r, Ok(Task::Nothing)));
    assert_eq!(tint(&app), vec![1.0, 0.5, 0.25, 1.0]);
    app.update(AppMessage::ModifyParameterColor(vec![], String::from("tint"), 1, channel("255"))).unwrap();
    assert_eq!(tint(&app), vec![1.0, 1.0, 0.25, 1.0]);
    app.update(AppMessage::ModifyParameterColor(vec![], String::from("tint"), 0, channel("0"))).unwrap();
    assert_eq!(tint(&app), vec![0.0, 1.0, 0.25, 1.0]);
    app.update(AppMessage::ModifyParameterColor(vec![], String::from("tint"), 2, channel("x"))).unwrap();
    assert_eq!(tint(&app), vec![0.0, 1.0, 0.25, 1.0]);
    // An index past the last channel means the last channel.
    app.update(AppMessage::ModifyParameterColor(vec![], String::from("tint"), 9, channel("0"))).unwrap();
    assert_eq!(tint(&app), vec![0.0, 1.0, 0.25, 0.0]);
    // A parameter that is no color, or is not there, is left alone.
    app.update(AppMessage::ModifyParameterColor(vec![], String::from("title"), 0, channel("0"))).unwrap();
    app.update(AppMessage::ModifyParameterColor(vec![], String::from("nope"), 0, channel("0"))).unwrap();
    assert!(matches!(
        app.layout.settings.get(&vec![]).unwrap().get(&String::from("title")),
        Some(SettingsValue::String(s)) if s == "Time"
    ));
    assert_eq!(app.layout.settings.get(&vec![]).unwrap().len(), 6);
}

#[test]
fn parameters_of_a_node_with_nothing_recorded_cannot_be_set() {
    let mut app = app();
    app.update(AppMessage::AddNewComponent(vec![], String::from("Timer Text"))).unwrap();
    let path = vec![3];
    let name = String::from("x");
    let messages = vec![
        AppMessage::ModifyParameterBoolean(path.clone(), name.clone(), true),
        AppMessage::ModifyParameterString(path.clone(), name.clone(), String::new()),
        AppMessage::ModifyParameterOptions(path.clone(), name.clone(), String::new()),
        AppMessage::ModifyParameterNumber(path.clone(), name.clone(), None),
        AppMessage::ModifyParameterNumber(path.clone(), name.clone(), Some(num(1.0))),
        AppMessage::ModifyParameterNumberRange(path.clone(), name.clone(), num(1.0)),
        AppMessage::ModifyParameterColor(path.clone(), name.clone(), 0, None),
        AppMessage::ModifyParameterColor(path.clone(), name.clone(), 0, Some(num(1.0))),
        AppMessage::ModifyParameterImageSubmit(path.clone(), name.clone(), vec![1]),
    ];
    for message in messages {
        assert!(matches!(app.update(message), Err(LayoutError::NoSettings)));
    }
    assert_eq!(app.layout.settings.len(), 1);
    assert_eq!(app.repository.layout_images.len(), 1);
}

#[test]
fn values_replace_unconditionally() {
    let mut app = app();
    app.update(AppMessage::AddNewComponent(vec![], String::from("Timer Text"))).unwrap();
    app.update(AppMessage::ModifyParameterOptions(vec![], String::from("title"), String::from("pick"))).unwrap();
    app.update(AppMessage::ModifyParameterNumberRange(vec![], String::from("size"), num(55.0))).unwrap();
    app.update(AppMessage::ModifyParameterBoolean(vec![], String::from("fresh"), true)).unwrap();
    let recorded = app.layout.settings.get(&vec![]).unwrap();
    assert!(matches!(recorded.get(&String::from("title")), Some(SettingsValue::Options(s)) if s == "pick"));
    assert!(matches!(recorded.get(&String::from("size")), Some(SettingsValue::NumberRange(n)) if value_of(*n) == 55.0));
    assert!(matches!(recorded.get(&String::from("fresh")), Some(SettingsValue::Boolean(true))));
    assert_eq!(recorded.len(), 7);
}

#[test]
fn an_image_is_recorded_and_kept_together() {
    let mut app = app();
    app.update(AppMessage::AddNewComponent(vec![], String::from("Timer Text"))).unwrap();
    let task = app.update(AppMessage::ModifyParameterImageOpen(vec![], String::from("icon"))).unwrap();
    assert!(matches!(task, Task::PickImage(p, n) if p.is_empty() && n == "icon"));
    app.update(AppMessage::ModifyParameterImageSubmit(vec![], String::from("icon"), vec![5, 6])).unwrap();
    assert!(matches!(
        app.layout.settings.get(&vec![]).unwrap().get(&String::from("icon")),
        Some(SettingsValue::Image(Some(b))) if *b == vec![5, 6]
    ));
    assert!(matches!(
        app.repository.layout_image(&vec![], &String::from("icon")),
        Some(ImageSlot(Some(h))) if h.bytes == vec![5, 6]
    ));
}

#[test]
fn images_move_with_their_nodes() {
    let mut app = app();
    app.update(AppMessage::AddNewComponent(vec![], String::from("List"))).unwrap();
    app.update(AppMessage::AddNewComponent(vec![], String::from("List"))).unwrap();
    app.update(AppMessage::AddNewComponent(vec![], String::from("Timer Text"))).unwrap();
    app.update(AppMessage::ModifyParameterImageSubmit(vec![1], String::from("icon"), vec![1])).unwrap();
    let task = app.update(AppMessage::MoveComponentUp(vec![1])).unwrap();
    assert!(matches!(&task, Task::Done(AppMessage::OpenComponent(p)) if *p == vec![0]));
    assert!(matches!(
        app.repository.layout_image(&vec![0], &String::from("icon")),
        Some(ImageSlot(Some(h))) if h.bytes == vec![1]
    ));
    assert!(app.repository.layout_image(&vec![1], &String::from("icon")).is_none());
    let task = app.update(AppMessage::EnterAboveComponent(vec![1])).unwrap();
    assert!(matches!(&task, Task::Done(AppMessage::OpenComponent(p)) if *p == vec![0, 0]));
    let task = app.update(AppMessage::ExitParentComponent(vec![0, 0])).unwrap();
    assert!(matches!(&task, Task::Done(AppMessage::OpenComponent(p)) if *p == vec![0]));
    assert_eq!(app.layout.content.as_ref().unwrap().children[0].name, "List");
    assert!(matches!(
        app.repository.layout_image(&vec![1], &String::from("icon")),
        Some(ImageSlot(Some(h))) if h.bytes == vec![1]
    ));
    let task = app.update(AppMessage::DeleteComponent(vec![0])).unwrap();
    assert!(matches!(&task, Task::Done(AppMessage::OpenComponent(_))));
    assert!(matches!(
        app.repository.layout_image(&vec![0], &String::from("icon")),
        Some(ImageSlot(Some(h))) if h.bytes == vec![1]
    ));
    assert_eq!(app.repository.layout_images.len(), 2);
}

#[test]
fn the_open_node_follows_a_delete() {
    let mut app = app();
    app.update(AppMessage::AddNewComponent(vec![], String::from("List"))).unwrap();
    for _ in 0..4 {
        app.update(AppMessage::AddNewComponent(vec![], String::from("List"))).unwrap();
    }
    app.update(AppMessage::AddNewComponent(vec![1], String::from("List"))).unwrap();
    // The open node goes with the subtree: its parent is open instead.
    app.update(AppMessage::OpenComponent(vec![1, 0])).unwrap();
    let task = app.update(AppMessage::DeleteComponent(vec![1])).unwrap();
    assert!(matches!(&task, Task::Done(AppMessage::OpenComponent(p)) if p.is_empty()));
    // The open node is a later sibling: it moves one place down.
    app.update(AppMessage::OpenComponent(vec![1])).unwrap();
    let task = app.update(AppMessage::DeleteComponent(vec![0])).unwrap();
    assert!(matches!(&task, Task::Done(AppMessage::OpenComponent(p)) if *p == vec![0]));
    // The open node is elsewhere: it stays.
    app.update(AppMessage::OpenComponent(vec![0])).unwrap();
    let task = app.update(AppMessage::DeleteComponent(vec![1])).unwrap();
    assert!(matches!(&task, Task::Done(AppMessage::OpenComponent(p)) if *p == vec![0]));
}

#[test]
fn opening_a_node_lists_its_choices() {
    let context = context();
    let mut app = App::new(Catalog::new(), context, 0);
    let options = SettingsFactory::default()
        .options(
            String::from("align"),
            vec![String::from("left"), String::from("right")],
            String::from("left"),
            None,
        )
        .boolean(String::from("bold"), true, None);
    let mut root = shape("root", vec![shape("plain", vec![])]);
    root.parameters = options;
    app.layout.content = Some(root);
    app.update(AppMessage::NewComponentComboBoxSelected(String::from("List"))).unwrap();
    assert_eq!(app.new_component_combo_box_selected.as_deref(), Some("List"));
    assert!(matches!(app.update(AppMessage::OpenComponent(vec![])), Ok(Task::Nothing)));
    assert!(app.new_component_combo_box_selected.is_none());
    assert_eq!(app.parameter_options.len(), 1);
    assert_eq!(app.parameter_options.get(&String::from("align")).unwrap().0, vec!["left", "right"]);
    app.update(AppMessage::OpenComponent(vec![0])).unwrap();
    assert_eq!(app.opened_component, vec![0]);
    assert_eq!(app.parameter_options.len(), 0);
    assert!(matches!(app.update(AppMessage::OpenComponent(vec![5])), Err(LayoutError::NoSuchChild)));
    assert_eq!(app.opened_component, vec![0]);
}

#[test]
fn screens_and_names() {
    let mut app = app();
    app.update(AppMessage::TogglePreview).unwrap();
    assert_eq!(app.screen, AppScreen::LayoutPreview);
    app.update(AppMessage::ToggleHotkeyEditor).unwrap();
    assert_eq!(app.screen, AppScreen::HotkeyEditor);
    app.update(AppMessage::ToggleHotkeyEditor).unwrap();
    assert_eq!(app.screen, AppScreen::LayoutEditor);
    app.update(AppMessage::TogglePreview).unwrap();
    app.update(AppMessage::TogglePreview).unwrap();
    assert_eq!(app.screen, AppScreen::LayoutEditor);
    app.update(AppMessage::LayoutNameChanged(String::from("n"))).unwrap();
    app.update(AppMessage::LayoutAuthorChanged(String::from("a"))).unwrap();
    assert_eq!((app.layout.name.as_str(), app.layout.author.as_str()), ("n", "a"));
    assert!(matches!(app.update(AppMessage::Update), Ok(Task::PollKeyboard)));
    assert!(matches!(app.update(AppMessage::LoadLayoutOpenPicker), Ok(Task::PickLayoutToLoad)));
    assert!(matches!(app.update(AppMessage::SaveLayoutOpenPicker), Ok(Task::PickLayoutToSave)));
    assert!(matches!(app.update(AppMessage::LoadLayout(String::from("p"))), Ok(Task::ReadLayout(p)) if p == "p"));
    assert!(matches!(app.update(AppMessage::SaveLayout(String::from("q"))), Ok(Task::WriteLayout(p)) if p == "q"));
}

#[test]
fn hotkeys_are_recorded_and_escape_unbinds() {
    let mut app = app();
    let f1 = Hotkey::new(Modifiers::empty(), Key::F1).unwrap();
    let escape = Hotkey::new(Modifiers::SHIFT, Key::Escape).unwrap();
    // What the hotkey library says of a combination goes with it.
    let pressed = KeyPress::of(f1);
    assert_eq!(pressed.hotkey, f1);
    assert!(!pressed.escape);
    assert!(KeyPress::of(escape).escape);
    assert_eq!(KeyPress::of(escape).hotkey, escape);
    assert!(KeyPress::of(Hotkey::new(Modifiers::empty(), Key::Escape).unwrap()).escape);
    assert!(!KeyPress::of(Hotkey::new(Modifiers::SHIFT, None::<Key>).unwrap()).escape);
    // Nothing is being recorded: keys are of no interest.
    assert!(matches!(app.key_event(false, pressed), Task::Nothing));
    app.update(AppMessage::AssignHotkey(pressed)).unwrap();
    assert!(app.layout.hotkeys.get(HotkeyAction::ResetTimer).is_none());
    app.update(AppMessage::StartRecordingHotkey(HotkeyAction::ResetTimer)).unwrap();
    assert_eq!(app.hotkey_recorder, Some(HotkeyAction::ResetTimer));
    assert!(matches!(app.key_event(true, pressed), Task::Nothing));
    let task = app.key_event(false, pressed);
    assert!(matches!(&task, Task::Done(AppMessage::AssignHotkey(h)) if h.hotkey == f1 && !h.escape));
    if let Task::Done(next) = task {
        app.update(next).unwrap();
    }
    assert_eq!(app.layout.hotkeys.get(HotkeyAction::ResetTimer), Some(f1));
    assert!(app.layout.hotkeys.get(HotkeyAction::PauseTimer).is_none());
    assert!(app.hotkey_recorder.is_none());
    app.update(AppMessage::StartRecordingHotkey(HotkeyAction::ResetTimer)).unwrap();
    app.update(AppMessage::AssignHotkey(KeyPress::of(escape))).unwrap();
    assert!(app.layout.hotkeys.get(HotkeyAction::ResetTimer).is_none());
    assert!(app.hotkey_recorder.is_none());
    // The editor goes by what the key press says, for every key press.
    app.update(AppMessage::StartRecordingHotkey(HotkeyAction::PauseTimer)).unwrap();
    app.update(AppMessage::AssignHotkey(KeyPress { hotkey: escape, escape: false })).unwrap();
    assert_eq!(app.layout.hotkeys.get(HotkeyAction::PauseTimer), Some(escape));
    app.update(AppMessage::StartRecordingHotkey(HotkeyAction::PauseTimer)).unwrap();
    app.update(AppMessage::AssignHotkey(KeyPress { hotkey: f1, escape: true })).unwrap();
    assert!(app.layout.hotkeys.get(HotkeyAction::PauseTimer).is_none());
    assert_eq!(
        HotkeyAction::all(),
        [HotkeyAction::StartOrSplitTimer, HotkeyAction::ResetTimer, HotkeyAction::PauseTimer]
    );
}

#[test]
fn install_takes_a_layout_that_was_read() {
    let mut app = app();
    let mut content = Layout::default();
    content.name = String::from("read");
    content.content = Some(shape("Timer Text", vec![]));
    let failures = app.install_layout(content);
    assert!(failures.is_empty());
    assert_eq!(app.layout.name, "read");
    assert_eq!(app.layout.settings.get(&vec![]).unwrap().len(), 6);
    assert_eq!(
        content_of(&app.layout.build(&app.lua_context, &app.repository)),
        Some("Time/4/0.5/false/none/0")
    );
}

#[test]
fn icons_of_a_run() {
    let mut repository = Repository::new();
    repository.set_layout_image(&vec![1], &String::from("icon"), ImageSlot(Some(ImageHandle::from_bytes(vec![1]))));
    repository.update_from_splits(&vec![1, 2], &vec![vec![], vec![3], vec![]]);
    assert_eq!(repository.game_icon.as_ref().unwrap().bytes, vec![1, 2]);
    assert_eq!(repository.splits_icon.len(), 3);
    assert!(repository.splits_icon[0].is_none());
    assert_eq!(repository.splits_icon[1].as_ref().unwrap().bytes, vec![3]);
    assert!(repository.splits_icon[2].is_none());
    repository.update_from_splits(&vec![], &vec![]);
    assert!(repository.game_icon.is_none());
    assert!(repository.splits_icon.is_empty());
    assert!(repository.layout_image(&vec![1], &String::from("icon")).is_some());
}

#[test]
fn a_script_is_handed_what_is_recorded() {
    let mut values = ComponentSettings::new();
    values.insert(String::from("flag"), SettingsValue::Boolean(true));
    values.insert(String::from("count"), SettingsValue::Number(num(2.5)));
    values.insert(String::from("size"), SettingsValue::NumberRange(num(7.0)));
    values.insert(String::from("title"), SettingsValue::String(String::from("t")));
    values.insert(String::from("choice"), SettingsValue::Options(String::from("left")));
    values.insert(String::from("tint"), SettingsValue::Color([num(0.0), num(0.5), num(1.0), num(1.0)]));
    values.insert(String::from("unset"), SettingsValue::Image(None));
    values.insert(String::from("set"), SettingsValue::Image(Some(vec![1])));
    values.insert(String::from("lost"), SettingsValue::Image(Some(vec![2])));
    let mut images = ComponentImages::new();
    images.insert(String::from("unset"), ImageSlot(None));
    images.insert(String::from("set"), ImageSlot(Some(ImageHandle::from_bytes(vec![1]))));
    let get = |name: &str| setting_value(&values, &images, &String::from(name));
    assert!(matches!(get("flag"), Ok(ScriptValue::Boolean(true))));
    assert!(matches!(get("count"), Ok(ScriptValue::Number(n)) if value_of(n) == 2.5));
    assert!(matches!(get("size"), Ok(ScriptValue::Number(n)) if value_of(n) == 7.0));
    assert!(matches!(get("title"), Ok(ScriptValue::Text(s)) if s == "t"));
    assert!(matches!(get("choice"), Ok(ScriptValue::Text(s)) if s == "left"));
    match get("tint") {
        Ok(ScriptValue::Color(c)) => {
            let c: Vec<f64> = c.iter().map(|n| value_of(*n)).collect();
            assert_eq!(c, vec![0.0, 0.5, 1.0, 1.0]);
        }
        _ => panic!("no color"),
    }
    assert!(matches!(get("unset"), Ok(ScriptValue::Nil)));
    assert!(matches!(get("set"), Ok(ScriptValue::Image(h)) if h.bytes == vec![1]));
    // An image for which nothing is kept, and a name without a value, are
    // errors.
    assert_eq!(get("lost").unwrap_err(), "no image handle found in repository");
    assert_eq!(get("nope").unwrap_err(), "couldn't find setting nope in component");
    // The value itself says the same, whatever else is recorded.
    let title = SettingsValue::String(String::from("t"));
    assert!(matches!(title.inner(&images, &String::from("any")), Ok(ScriptValue::Text(s)) if s == "t"));
    let picture = SettingsValue::Image(None);
    assert!(matches!(picture.inner(&images, &String::from("set")), Ok(ScriptValue::Image(h)) if h.bytes == vec![1]));
    assert!(picture.inner(&images, &String::from("gone")).is_err());
}

/// A component whose build function shows what it is handed under each of
/// the names it asks for.
const SHOWS: &str = r#"
return {
  name = "Shows",
  author = "tester",
  settings = function() return settings_factory() end,
  widget = function(env)
    local tint = env.setting("tint")
    local parts = {
      tostring(env.setting("flag")),
      tostring(env.setting("count")),
      env.setting("title"),
      tostring(#tint), tostring(tint[1]), tostring(tint[2]), tostring(tint[3]), tostring(tint[4]),
      tostring(env.setting("unset")),
      type(env.setting("set")),
      tostring(pcall(env.setting, "lost")),
      tostring(pcall(env.setting, "nope")),
      tostring(env.children.len),
    }
    return text(table.concat(parts, "/"))
  end,
}
"#;

#[test]
fn a_build_function_sees_each_kind_of_value() {
    let context = context();
    let node = Component::from_str(SHOWS.to_string(), &context).unwrap();
    let mut values = ComponentSettings::new();
    values.insert(String::from("flag"), SettingsValue::Boolean(true));
    values.insert(String::from("count"), SettingsValue::Number(num(2.5)));
    values.insert(String::from("title"), SettingsValue::String(String::from("t")));
    values.insert(String::from("tint"), SettingsValue::Color([num(0.0), num(0.5), num(1.0), num(0.25)]));
    values.insert(String::from("unset"), SettingsValue::Image(None));
    values.insert(String::from("set"), SettingsValue::Image(Some(vec![1])));
    values.insert(String::from("lost"), SettingsValue::Image(Some(vec![2])));
    let mut settings = yast_core::layout::settings::LayoutSettings::new();
    settings.insert(vec![3], values);
    let mut repository = Repository::new();
    repository.set_layout_image(&vec![3], &String::from("unset"), ImageSlot(None));
    repository.set_layout_image(
        &vec![3],
        &String::from("set"),
        ImageSlot(Some(ImageHandle::from_bytes(vec![1]))),
    );
    let inputs = node.build_inputs(&vec![3], &settings, &repository);
    assert_eq!(inputs.children, 0);
    assert_eq!(inputs.settings.len(), 7);
    assert_eq!(inputs.images.len(), 2);
    let built = node.build(&context, vec![3], &settings, &repository).unwrap();
    assert_eq!(
        content_of(&built),
        Some("true/2.5/t/4/0/0.5/1/0.25/nil/userdata/false/false/0")
    );
    // Under a path with nothing recorded the script is handed nothing, and
    // asking for a value fails the build.
    let nothing = node.build_inputs(&vec![4], &settings, &repository);
    assert_eq!(nothing.settings.len(), 0);
    assert_eq!(nothing.images.len(), 0);
    assert!(matches!(
        node.build(&context, vec![4], &settings, &repository),
        Err(LayoutError::Script(_))
    ));
}

#[test]
fn a_script_that_never_ends_is_stopped() {
    let context = context();
    let endless = [
        "while true do end",
        "while true do pcall(function() while true do end end) end",
        "local f = coroutine.wrap(function() while true do end end) f()",
        "local function again() return again() end return again()",
    ];
    for text in endless {
        assert!(matches!(
            Component::from_str(text.to_string(), &context),
            Err(LayoutError::Script(_))
        ));
    }
    assert!(matches!(
        Component::import_all_from_sources(vec![String::from("repeat until false")], &context),
        Err(LayoutError::Script(_))
    ));
    // The next script starts with all its steps.
    let node = Component::from_str(TIMER_TEXT.to_string(), &context).unwrap();
    assert_eq!(node.get_name(), "Timer Text");
}

#[test]
fn a_build_function_that_never_ends_is_stopped() {
    let context = context();
    let text = r#"
return {
  name = "Hangs",
  author = "tester",
  settings = function()
    return settings_factory():boolean("shown", true, function(setting) while true do end end)
  end,
  widget = function(env) while true do pcall(error) end end,
}
"#;
    let node = Component::from_str(text.to_string(), &context).unwrap();
    let r = node.build(
        &context,
        vec![],
        &yast_core::layout::settings::LayoutSettings::new(),
        &Repository::new(),
    );
    assert!(matches!(r, Err(LayoutError::Script(_))));
    // A predicate that is stopped has failed, and the line is shown.
    let line = &node.get_parameters().0[0];
    assert!(line.is_visible(&context, &ComponentSettings::new(), &ComponentImages::new()));
}

#[test]
fn the_interpreter_does_not_compile_scripts() {
    let context = LuaContext::init("/data").unwrap();
    let jit: mlua::Value = context.lua().globals().get("jit").unwrap();
    assert!(matches!(jit, mlua::Value::Nil));
    let table: mlua::Value = context.lua().globals().get("table").unwrap();
    assert!(matches!(table, mlua::Value::Table(_)));
}

#[test]
fn scripts_get_no_way_to_end_or_stall_the_process() {
    let context = LuaContext::init("/data").unwrap();
    let globals = context.lua().globals();
    for name in ["io", "jit", "ffi", "debug", "load", "loadstring", "loadfile", "dofile"] {
        let value: mlua::Value = globals.get(name).unwrap();
        assert!(matches!(value, mlua::Value::Nil), "{name}");
    }
    let os: Table = globals.get("os").unwrap();
    for name in ["exit", "execute"] {
        let value: mlua::Value = os.get(name).unwrap();
        assert!(matches!(value, mlua::Value::Nil), "{name}");
    }
    for name in ["time", "clock", "date"] {
        let value: mlua::Value = os.get(name).unwrap();
        assert!(matches!(value, mlua::Value::Function(_)), "{name}");
    }
    for name in ["string", "math", "bit", "package"] {
        let value: mlua::Value = globals.get(name).unwrap();
        assert!(matches!(value, mlua::Value::Table(_)), "{name}");
    }
    let require: mlua::Value = globals.get("require").unwrap();
    assert!(matches!(require, mlua::Value::Function(_)));
}

#[test]
fn a_script_that_asks_for_the_end_of_the_process_fails() {
    let context = context();
    for text in ["os.exit(3)", "os.execute('true')", "io.read()", "return dofile()", "return loadstring('return {}')()"] {
        assert!(matches!(
            Component::from_str(text.to_string(), &context),
            Err(LayoutError::Script(_))
        ));
        assert!(matches!(
            Component::import_all_from_sources(vec![text.to_string()], &context),
            Err(LayoutError::Script(_))
        ));
    }
    let node = Component::from_str(TIMER_TEXT.to_string(), &context).unwrap();
    assert_eq!(node.get_name(), "Timer Text");
}

#[test]
fn a_compiled_chunk_is_not_a_script() {
    let context = context();
    // What the interpreter itself compiles from a script that is fine as text.
    let dump: Function = context.lua().globals().get::<Table>("string").unwrap().get("dump").unwrap();
    let fine: Function = context.lua().load("return { name = 'Compiled' }").into_function().unwrap();
    let compiled: mlua::String = dump.call(fine).unwrap();
    let bytes = compiled.as_bytes().to_vec();
    assert_eq!(&bytes[..3], b"\x1bLJ");
    let text: String = bytes.iter().map(|b| char::from(*b & 0x7f)).collect();
    assert!(text.starts_with("\u{1b}LJ"));
    assert!(matches!(
        Component::import_all_from_sources(vec![text.clone()], &context),
        Err(LayoutError::Script(_))
    ));
    assert!(matches!(Component::from_str(text, &context), Err(LayoutError::Script(_))));
    match Component::from_str(String::from("\u{1b}LJ"), &context) {
        Err(LayoutError::Script(message)) => assert!(message.contains("mode"), "{message}"),
        _ => panic!("a compiled chunk was taken"),
    }
}

#[test]
fn modules_are_still_found_by_name() {
    let context = context();
    let lua = context.lua();
    let found: String = lua
        .load(
            "package.preload['shared.colors'] = function() return { red = 'ff0000' } end \
             return require('shared.colors').red",
        )
        .eval()
        .unwrap();
    assert_eq!(found, "ff0000");
    // A module that is on no path is reported as such, with the places tried.
    let (ok, message): (bool, String) =
        lua.load("return pcall(require, 'no.such.module')").eval().unwrap();
    assert!(!ok);
    assert!(message.contains("/data/yast/lib/no/such/module.lua"), "{message}");
    assert!(message.contains("/data/yast/components/no/such/module/init.lua"), "{message}");
    // A file that is found is read as a script: an empty one gives nothing.
    let found: bool =
        lua.load("package.path = '/dev/null' return require('an.empty.module')").eval().unwrap();
    assert!(found);
}

#[test]
fn a_widget_that_a_script_keeps_can_be_shown_again() {
    let context = context();
    let text = r#"
local kept = text("kept")
return {
  name = "Keeps",
  author = "tester",
  settings = function() return settings_factory() end,
  widget = function(env) return kept end,
}
"#;
    let node = Component::from_str(text.to_string(), &context).unwrap();
    let settings = yast_core::layout::settings::LayoutSettings::new();
    let repository = Repository::new();
    for _ in 0..3 {
        let built = node.build(&context, vec![], &settings, &repository).unwrap();
        assert_eq!(content_of(&built), Some("kept"));
    }
}

#[test]
fn children_are_built_at_their_own_paths() {
    let root = shape("List", vec![shape("a", vec![]), shape("b", vec![]), shape("c", vec![])]);
    let raw = LuaWidgetColumn::new(vec![
        LuaWidget::internal_child(3).unwrap(),
        LuaWidgetText::new(String::from("between")).into_widget(),
        LuaWidget::internal_child(1).unwrap(),
    ])
    .into_widget();
    assert_eq!(
        root.child_places(&raw, &vec![4, 0]),
        vec![Some(vec![4, 0, 0]), None, Some(vec![4, 0, 2])]
    );
    assert_eq!(root.child_places(&raw, &vec![]), vec![Some(vec![0]), None, Some(vec![2])]);
    let none = LuaWidgetText::new(String::from("alone")).into_widget();
    assert_eq!(root.child_places(&none, &vec![7]), vec![None, None, None]);
    assert_eq!(shape("leaf", vec![]).child_places(&raw, &vec![7]), Vec::<Option<Vec<usize>>>::new());
}

#[test]
fn a_script_can_go_on_from_one_schema_twice() {
    let context = context();
    let text = r#"
return {
  name = "Twice",
  author = "tester",
  settings = function()
    local base = settings_factory():string("title", "Time", function(setting) return false end)
    local other = base:boolean("bold", true)
    return base:number("count", 3)
  end,
  widget = function(env)
    local line = text(env.setting("title"))
    local both = column({ line, line })
    return column({ line, both })
  end,
}
"#;
    let node = Component::from_str(text.to_string(), &context).unwrap();
    let lines = &node.get_parameters().0;
    assert_eq!(lines.len(), 2);
    assert!(matches!(
        &lines[0].content,
        SettingsFactoryEntryContent::Value(name, SettingsFactoryValue::String(_)) if name == "title"
    ));
    assert!(matches!(
        &lines[1].content,
        SettingsFactoryEntryContent::Value(name, SettingsFactoryValue::Number(_)) if name == "count"
    ));
    // The predicate went with the copy.
    assert!(!lines[0].is_visible(&context, &ComponentSettings::new(), &ComponentImages::new()));
    assert!(lines[1].is_visible(&context, &ComponentSettings::new(), &ComponentImages::new()));
    let mut values = ComponentSettings::new();
    values.insert(String::from("title"), SettingsValue::String(String::from("Time")));
    let mut settings = yast_core::layout::settings::LayoutSettings::new();
    settings.insert(vec![], values);
    let built = node.build(&context, vec![], &settings, &Repository::new()).unwrap();
    match built {
        LuaWidget::Column(outer) => {
            assert_eq!(outer.inner.len(), 2);
            assert_eq!(content_of(&outer.inner[0]), Some("Time"));
            assert!(matches!(&outer.inner[1], LuaWidget::Column(c) if c.inner.len() == 2));
        },
        _ => panic!("the script gave a column"),
    }
}

#[test]
fn each_child_is_built_with_what_is_recorded_at_its_own_path() {
    let mut app = app();
    app.update(AppMessage::AddNewComponent(vec![], String::from("List"))).unwrap();
    app.update(AppMessage::AddNewComponent(vec![], String::from("Timer Text"))).unwrap();
    app.update(AppMessage::AddNewComponent(vec![], String::from("List"))).unwrap();
    app.update(AppMessage::AddNewComponent(vec![1], String::from("Timer Text"))).unwrap();
    app.update(AppMessage::AddNewComponent(vec![], String::from("Timer Text"))).unwrap();
    app.update(AppMessage::ModifyParameterString(vec![0], String::from("title"), String::from("first"))).unwrap();
    app.update(AppMessage::ModifyParameterString(vec![1, 0], String::from("title"), String::from("inner"))).unwrap();
    app.update(AppMessage::ModifyParameterString(vec![2], String::from("title"), String::from("last"))).unwrap();
    let built = app.layout.build(&app.lua_context, &app.repository);
    let outer = match &built {
        LuaWidget::Column(outer) => outer,
        _ => panic!("the root is a list"),
    };
    assert_eq!(outer.inner.len(), 4);
    assert_eq!(content_of(&outer.inner[0]), Some("first/4/0.5/false/none/0"));
    match &outer.inner[1] {
        LuaWidget::Column(nested) => {
            assert_eq!(nested.inner.len(), 2);
            assert_eq!(content_of(&nested.inner[0]), Some("inner/4/0.5/false/none/0"));
            assert_eq!(content_of(&nested.inner[1]), Some("end of 1"));
        },
        _ => panic!("the second child is a list"),
    }
    assert_eq!(content_of(&outer.inner[2]), Some("last/4/0.5/false/none/0"));
    assert_eq!(content_of(&outer.inner[3]), Some("end of 3"));
}
