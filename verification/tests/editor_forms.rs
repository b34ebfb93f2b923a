use yast_core::assoc::AssocMap;
use yast_core::component_editor::{component_editor, editor_rows, EditorRow};
use yast_core::editor::{App, OptionList};
use yast_core::error::LayoutError;
use yast_core::layout::component::Component;
use yast_core::layout::settings::{ComponentSettings, SettingsValue};
use yast_core::lua::settings::SettingsFactory;
use yast_core::lua::{Catalog, LuaContext};
use yast_core::number::Number;
use yast_core::repository::{ComponentImages, ImageHandle, ImageSlot};
use yast_core::tree::build_tree_from_layout_part;

fn num(value: f64) -> Number {
    Number::from_bits(value.to_bits())
}

fn node(name: &str, children: Vec<Component>) -> Component {
    Component {
        name: name.to_string(),
        author: String::new(),
        widget: None,
        parameters: SettingsFactory::default(),
        children,
    }
}

fn schema() -> SettingsFactory {
    SettingsFactory::default()
        .header(String::from("Look"), None)
        .boolean(String::from("bold"), false, None)
        .string(String::from("title"), String::from("t"), None)
        .options(String::from("align"), vec![String::from("left"), String::from("right")], String::from("left"), None)
        .number(String::from("count"), num(1.0), None)
        .number_range(String::from("size"), num(0.0), num(10.0), num(1.0), num(5.0), None)
        .color(String::from("tint"), num(1.0), num(0.0), num(0.0), num(1.0), None)
        .image(String::from("icon"), None)
}

fn choices() -> AssocMap<String, OptionList> {
    let mut options = AssocMap::new();
    options.insert(String::from("align"), OptionList(vec![String::from("left"), String::from("right")]));
    options
}

fn images(handle: Option<Vec<u8>>) -> ComponentImages {
    let mut images = ComponentImages::new();
    images.insert(String::from("icon"), ImageSlot(handle.map(ImageHandle::from_bytes)));
    images
}

#[test]
fn the_outline_lists_the_tree_in_order_and_indents_by_depth() {
    let tree = node(
        "root",
        vec![node("a", vec![node("a0", vec![]), node("a1", vec![node("a10", vec![])])]), node("b", vec![])],
    );
    let rows = build_tree_from_layout_part(&tree, vec![], &vec![0, 1]);
    let listed: Vec<(String, Vec<usize>, bool)> =
        rows.into_iter().map(|r| (r.label, r.path, r.is_current)).collect();
    assert_eq!(
        listed,
        vec![
            (String::from("root"), vec![], false),
            (String::from("  a"), vec![0], false),
            (String::from("    a0"), vec![0, 0], false),
            (String::from("    a1"), vec![0, 1], true),
            (String::from("      a10"), vec![0, 1, 0], false),
            (String::from("  b"), vec![1], false),
        ]
    );
    let rows = build_tree_from_layout_part(&node("only", vec![]), vec![], &vec![]);
    assert_eq!(rows.len(), 1);
    assert!(rows[0].is_current);
    assert_eq!(rows[0].label, "only");
}

#[test]
fn the_form_has_a_row_for_each_value_by_its_kind() {
    let schema = schema();
    let values = schema.initialize_defaults();
    let rows = editor_rows(&schema, &values, &images(Some(vec![1])), &choices(), &vec![]).unwrap();
    assert_eq!(rows.len(), 8);
    assert!(matches!(&rows[0], EditorRow::Header(t) if t == "- Look -"));
    assert!(matches!(&rows[1], EditorRow::Boolean(n, false) if n == "bold"));
    assert!(matches!(&rows[2], EditorRow::Text(n, v) if n == "title" && v == "t"));
    assert!(matches!(&rows[3], EditorRow::Options(n, v, c) if n == "align" && v == "left" && c.len() == 2 && c[1] == "right"));
    assert!(matches!(&rows[4], EditorRow::Number(n, v) if n == "count" && *v == num(1.0)));
    assert!(matches!(
        &rows[5],
        EditorRow::NumberRange(n, lo, hi, step, v)
            if n == "size" && *lo == num(0.0) && *hi == num(10.0) && *step == num(1.0) && *v == num(5.0)
    ));
    assert!(matches!(&rows[6], EditorRow::Color(n, c) if n == "tint" && c[0] == num(1.0) && c[1] == num(0.0)));
    assert!(matches!(&rows[7], EditorRow::Image(n, Some(h)) if n == "icon" && h.bytes == vec![1]));
}

#[test]
fn hidden_lines_and_lines_without_a_value_have_no_row() {
    let schema = schema();
    let mut values = schema.initialize_defaults();
    values.remove(&String::from("count"));
    let visible = vec![false, true, false];
    let rows = editor_rows(&schema, &values, &images(None), &choices(), &visible).unwrap();
    // The header and the title are hidden, the count has no value; lines
    // past the marks are shown.
    assert_eq!(rows.len(), 5);
    assert!(matches!(&rows[0], EditorRow::Boolean(..)));
    assert!(matches!(&rows[1], EditorRow::Options(..)));
    assert!(matches!(&rows[2], EditorRow::NumberRange(..)));
    assert!(matches!(&rows[3], EditorRow::Color(..)));
    assert!(matches!(&rows[4], EditorRow::Image(_, None)));
}

#[test]
fn choices_and_ranges_need_their_declaration() {
    let schema = schema();
    let mut values = ComponentSettings::new();
    // Recorded as a choice and as a range, declared as a text and a number.
    values.insert(String::from("title"), SettingsValue::Options(String::from("x")));
    values.insert(String::from("count"), SettingsValue::NumberRange(num(2.0)));
    // Declared as a choice, but its choices are not listed.
    values.insert(String::from("align"), SettingsValue::Options(String::from("left")));
    let rows = editor_rows(&schema, &values, &ComponentImages::new(), &AssocMap::new(), &vec![]).unwrap();
    assert_eq!(rows.len(), 1);
    assert!(matches!(&rows[0], EditorRow::Header(_)));
}

#[test]
fn an_image_for_which_nothing_is_kept_is_an_error() {
    let schema = schema();
    let values = schema.initialize_defaults();
    let r = editor_rows(&schema, &values, &ComponentImages::new(), &choices(), &vec![]);
    assert!(matches!(r, Err(LayoutError::NoImage)));
    // Hidden, it is none.
    let mut visible = vec![true; 7];
    visible.push(false);
    let r = editor_rows(&schema, &values, &ComponentImages::new(), &choices(), &visible);
    assert_eq!(r.unwrap().len(), 7);
}

#[test]
fn the_form_of_the_open_node() {
    let mut app = App::new(Catalog::new(), LuaContext::init("/data").unwrap(), 0);
    let mut child = node("child", vec![]);
    child.parameters = schema();
    let defaults = child.parameters.initialize_defaults();
    app.layout.component_add(vec![], node("root", vec![])).unwrap();
    app.layout.component_add(vec![], child).unwrap();
    app.repository.set_layout_image(&vec![0], &String::from("icon"), ImageSlot(None));
    assert_eq!(app.layout.settings.get(&vec![0]).unwrap().len(), defaults.len());
    let root = app.layout.content.as_ref().unwrap();
    // The choices of the node are listed once it is open.
    let rows = component_editor(&app, root, vec![0], vec![0]).unwrap();
    assert_eq!(rows.len(), 7);
    assert!(!rows.iter().any(|r| matches!(r, EditorRow::Options(..))));
    assert!(matches!(component_editor(&app, root, vec![3], vec![3]), Err(LayoutError::NoSuchChild)));
    app.open_component(vec![0]).unwrap();
    let root = app.layout.content.as_ref().unwrap();
    let rows = component_editor(&app, root, vec![0], vec![0]).unwrap();
    assert_eq!(rows.len(), 8);
    // The root has nothing declared: its form is empty.
    assert_eq!(component_editor(&app, root, vec![], vec![]).unwrap().len(), 0);
}
