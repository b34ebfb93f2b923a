use yast_core::layout::settings::{ComponentSettings, SettingsValue};
use yast_core::lua::settings::{
    shown, SettingsFactory, SettingsFactoryEntryContent, SettingsFactoryValue,
};
use yast_core::error::LayoutError;
use yast_core::number::Number;

fn num(value: f64) -> Number {
    Number::from_bits(value.to_bits())
}

fn value_of(number: Number) -> f64 {
    f64::from_bits(number.to_bits())
}

fn every_kind() -> SettingsFactory {
    SettingsFactory::default()
        .header(String::from("General"), None)
        .boolean(String::from("enabled"), true, None)
        .string(String::from("title"), String::from("Splits"), None)
        .options(
            String::from("align"),
            vec![String::from("left"), String::from("right")],
            String::from("left"),
            None,
        )
        .header(String::from("Numbers"), None)
        .number(String::from("count"), num(3.0), None)
        .number_range(String::from("size"), num(0.0), num(10.0), num(1.0), num(5.0), None)
        .color(String::from("tint"), num(1.0), num(0.5), num(0.25), num(1.0), None)
        .image(String::from("icon"), None)
}

#[test]
fn builders_append_in_order() {
    let schema = every_kind();
    assert_eq!(schema.0.len(), 9);
    assert!(matches!(&schema.0[0].content, SettingsFactoryEntryContent::Header(t) if t == "General"));
    assert!(matches!(
        &schema.0[1].content,
        SettingsFactoryEntryContent::Value(n, SettingsFactoryValue::Boolean(true)) if n == "enabled"
    ));
    assert!(matches!(
        &schema.0[3].content,
        SettingsFactoryEntryContent::Value(n, SettingsFactoryValue::Options(o, d))
            if n == "align" && o.len() == 2 && d == "left"
    ));
    assert!(matches!(
        &schema.0[6].content,
        SettingsFactoryEntryContent::Value(n, SettingsFactoryValue::NumberRange(lo, hi, step, d))
            if n == "size" && value_of(*lo) == 0.0 && value_of(*hi) == 10.0
                && value_of(*step) == 1.0 && value_of(*d) == 5.0
    ));
    assert!(matches!(
        &schema.0[8].content,
        SettingsFactoryEntryContent::Value(n, SettingsFactoryValue::Image) if n == "icon"
    ));
    assert!(schema.0.iter().all(|e| e.show_if.is_none()));
}

#[test]
fn defaults_hold_one_value_for_each_value_line() {
    let defaults = every_kind().initialize_defaults();
    assert_eq!(defaults.len(), 7);
    assert!(defaults.get(&String::from("General")).is_none());
    assert!(defaults.get(&String::from("Numbers")).is_none());
    assert!(matches!(defaults.get(&String::from("enabled")), Some(SettingsValue::Boolean(true))));
    assert!(matches!(defaults.get(&String::from("title")), Some(SettingsValue::String(s)) if s == "Splits"));
    assert!(matches!(defaults.get(&String::from("align")), Some(SettingsValue::Options(s)) if s == "left"));
    assert!(matches!(defaults.get(&String::from("count")), Some(SettingsValue::Number(n)) if value_of(*n) == 3.0));
    assert!(matches!(defaults.get(&String::from("size")), Some(SettingsValue::NumberRange(n)) if value_of(*n) == 5.0));
    match defaults.get(&String::from("tint")) {
        Some(SettingsValue::Color(c)) => {
            let c: Vec<f64> = c.iter().map(|n| value_of(*n)).collect();
            assert_eq!(c, vec![1.0, 0.5, 0.25, 1.0]);
        }
        _ => panic!("tint is no color"),
    }
    assert!(matches!(defaults.get(&String::from("icon")), Some(SettingsValue::Image(None))));
}

#[test]
fn defaults_of_an_empty_schema_and_of_headers_alone_are_empty() {
    assert_eq!(SettingsFactory::default().initialize_defaults().len(), 0);
    let headers = SettingsFactory::default()
        .header(String::from("a"), None)
        .header(String::from("b"), None);
    assert_eq!(headers.initialize_defaults().len(), 0);
}

#[test]
fn a_later_line_of_a_name_replaces_an_earlier_one() {
    let schema = SettingsFactory::default()
        .boolean(String::from("x"), true, None)
        .number(String::from("x"), num(2.0), None);
    let defaults = schema.initialize_defaults();
    assert_eq!(defaults.len(), 1);
    assert!(matches!(defaults.get(&String::from("x")), Some(SettingsValue::Number(n)) if value_of(*n) == 2.0));
}

#[test]
fn to_settings_value_projects_each_kind() {
    assert!(matches!(SettingsFactoryValue::Boolean(false).to_settings_value(), SettingsValue::Boolean(false)));
    assert!(matches!(
        SettingsFactoryValue::String(String::from("s")).to_settings_value(),
        SettingsValue::String(s) if s == "s"
    ));
    assert!(matches!(
        SettingsFactoryValue::Options(vec![String::from("a")], String::from("a")).to_settings_value(),
        SettingsValue::Options(s) if s == "a"
    ));
    assert!(matches!(
        SettingsFactoryValue::Number(num(1.5)).to_settings_value(),
        SettingsValue::Number(n) if value_of(n) == 1.5
    ));
    assert!(matches!(
        SettingsFactoryValue::NumberRange(num(0.0), num(10.0), num(1.0), num(5.0)).to_settings_value(),
        SettingsValue::NumberRange(n) if value_of(n) == 5.0
    ));
    assert!(matches!(SettingsFactoryValue::Image.to_settings_value(), SettingsValue::Image(None)));
}

#[test]
fn reload_keeps_the_value_and_takes_the_new_bounds() {
    // Recorded under the old schema, NumberRange(0, 10, 1, default 5): 7.
    let mut recorded = ComponentSettings::new();
    recorded.insert(String::from("size"), SettingsValue::NumberRange(num(7.0)));
    let newer = SettingsFactory::default().number_range(
        String::from("size"),
        num(0.0),
        num(100.0),
        num(5.0),
        num(5.0),
        None,
    );
    let merged = newer.reconcile(&recorded);
    assert_eq!(merged.len(), 1);
    assert!(matches!(merged.get(&String::from("size")), Some(SettingsValue::NumberRange(n)) if value_of(*n) == 7.0));
    // The bounds, the step and the default are those of the new schema.
    assert!(matches!(
        &newer.0[0].content,
        SettingsFactoryEntryContent::Value(_, SettingsFactoryValue::NumberRange(lo, hi, step, d))
            if value_of(*lo) == 0.0 && value_of(*hi) == 100.0 && value_of(*step) == 5.0
                && value_of(*d) == 5.0
    ));
}

#[test]
fn reload_drops_what_the_schema_lacks_and_fills_what_is_new() {
    let mut recorded = ComponentSettings::new();
    recorded.insert(String::from("gone"), SettingsValue::Boolean(true));
    recorded.insert(String::from("title"), SettingsValue::String(String::from("mine")));
    let merged = every_kind().reconcile(&recorded);
    assert_eq!(merged.len(), 7);
    assert!(merged.get(&String::from("gone")).is_none());
    assert!(matches!(merged.get(&String::from("title")), Some(SettingsValue::String(s)) if s == "mine"));
    assert!(matches!(merged.get(&String::from("enabled")), Some(SettingsValue::Boolean(true))));
    assert!(matches!(merged.get(&String::from("icon")), Some(SettingsValue::Image(None))));
}

#[test]
fn reload_replaces_a_value_of_another_kind_by_the_default() {
    let mut recorded = ComponentSettings::new();
    recorded.insert(String::from("count"), SettingsValue::String(String::from("three")));
    recorded.insert(String::from("size"), SettingsValue::Number(num(7.0)));
    let merged = every_kind().reconcile(&recorded);
    assert!(matches!(merged.get(&String::from("count")), Some(SettingsValue::Number(n)) if value_of(*n) == 3.0));
    assert!(matches!(merged.get(&String::from("size")), Some(SettingsValue::NumberRange(n)) if value_of(*n) == 5.0));
}

#[test]
fn accepts_compares_kinds() {
    let range = SettingsFactoryValue::NumberRange(num(0.0), num(1.0), num(0.1), num(0.5));
    assert!(range.accepts(&SettingsValue::NumberRange(num(9.0))));
    assert!(!range.accepts(&SettingsValue::Number(num(9.0))));
    assert!(SettingsFactoryValue::Image.accepts(&SettingsValue::Image(Some(vec![1]))));
    assert!(!SettingsFactoryValue::Boolean(true).accepts(&SettingsValue::Image(None)));
}

#[test]
fn a_line_is_hidden_only_where_its_predicate_says_so() {
    assert!(shown(None));
    assert!(shown(Some(Ok(true))));
    assert!(!shown(Some(Ok(false))));
    assert!(shown(Some(Err(LayoutError::Script(String::from("boom"))))));
}
