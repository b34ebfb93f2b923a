use yast_core::assoc::{AssocMap, MapKey, MapValue};
use yast_core::error::LayoutError;
use yast_core::layout::settings::{set_color_channel, ComponentSettings, SettingsValue};
use yast_core::number::Number;
use yast_core::path::{child_of, starts_with};
use yast_core::repository::{images_from, ImageSlot, Repository};

fn num(value: f64) -> Number {
    Number::from_bits(value.to_bits())
}

#[test]
fn a_map_holds_one_value_for_each_key() {
    let mut map: AssocMap<Vec<usize>, ComponentSettings> = AssocMap::new();
    assert_eq!(map.len(), 0);
    assert!(map.take_any().is_none());
    assert!(map.insert(vec![1], ComponentSettings::new()).is_none());
    assert!(map.insert(vec![], ComponentSettings::new()).is_none());
    assert!(map.insert(vec![1, 0], ComponentSettings::new()).is_none());
    let mut other = ComponentSettings::new();
    other.insert(String::from("x"), SettingsValue::Boolean(true));
    let replaced = map.insert(vec![1], other).unwrap();
    assert_eq!(replaced.len(), 0);
    assert_eq!(map.len(), 3);
    assert_eq!(map.get(&vec![1]).unwrap().len(), 1);
    assert!(map.contains_key(&vec![]));
    assert!(!map.contains_key(&vec![0]));
    assert!(map.get(&vec![0, 1]).is_none());
    let mut keys = map.keys();
    keys.sort();
    assert_eq!(keys, vec![vec![], vec![1], vec![1, 0]]);
    let copy = map.copy_value();
    assert_eq!(copy.len(), 3);
    assert_eq!(copy.get(&vec![1]).unwrap().len(), 1);
    assert_eq!(map.remove(&vec![1]).unwrap().len(), 1);
    assert!(map.remove(&vec![1]).is_none());
    assert_eq!(map.len(), 2);
    let (key, _) = map.take_any().unwrap();
    assert!(!map.contains_key(&key));
    assert_eq!(map.len(), 1);
    assert_eq!(copy.len(), 3);
}

#[test]
fn keys_are_compared_and_copied_by_what_they_hold() {
    assert!(vec![1usize, 2].same_key(&vec![1, 2]));
    assert!(!vec![1usize, 2].same_key(&vec![1, 3]));
    assert!(!vec![1usize, 2].same_key(&vec![1]));
    assert!(Vec::<usize>::new().same_key(&vec![]));
    assert_eq!(vec![3usize, 4].copy_key(), vec![3, 4]);
    assert!(String::from("a").same_key(&String::from("a")));
    assert!(!String::from("a").same_key(&String::from("b")));
    assert_eq!(String::from("abc").copy_key(), "abc");
}

#[test]
fn paths() {
    assert!(starts_with(&vec![1, 2, 3], &vec![1, 2]));
    assert!(starts_with(&vec![1, 2], &vec![1, 2]));
    assert!(starts_with(&vec![1, 2], &vec![]));
    assert!(!starts_with(&vec![1, 2], &vec![1, 2, 3]));
    assert!(!starts_with(&vec![1, 2], &vec![2]));
    assert_eq!(child_of(&vec![1, 2], 0), vec![1, 2, 0]);
    assert_eq!(child_of(&vec![], 7), vec![7]);
}

#[test]
fn numbers_are_their_bit_patterns() {
    assert_eq!(Number::from_bits(1.5f64.to_bits()).to_bits(), 1.5f64.to_bits());
    assert_eq!(f64::from_bits(Number::zero().to_bits()), 0.0);
    assert!(f64::from_bits(Number::zero().to_bits()).is_sign_positive());
    assert_eq!(num(2.0), num(2.0));
    assert_ne!(num(0.0), num(-0.0));
}

#[test]
fn errors_say_what_went_wrong() {
    assert_eq!(LayoutError::NoSuchChild.message(), "invalid path (no such child at index)");
    assert_eq!(LayoutError::RootHasNoParent.message(), "cannot move root component");
    assert_eq!(LayoutError::NoContent.message(), "the layout has no component");
    assert_eq!(LayoutError::NoSettings.message(), "couldn't find component in layout from path");
    assert_eq!(LayoutError::UnknownComponent.message(), "couldn't find component in factories");
    assert_eq!(LayoutError::NoImage.message(), "couldn't find image in repository");
    assert_eq!(
        LayoutError::NoWidget.message(),
        "no widget lua function in component (could be a loading error!)"
    );
    assert_eq!(LayoutError::Script(String::from("boom")).message(), "boom");
}

#[test]
fn image_values_fill_image_slots() {
    let mut values = ComponentSettings::new();
    values.insert(String::from("a"), SettingsValue::Image(Some(vec![1, 2])));
    values.insert(String::from("b"), SettingsValue::Image(None));
    values.insert(String::from("c"), SettingsValue::Number(num(1.0)));
    let images = images_from(&values);
    assert_eq!(images.len(), 2);
    assert!(matches!(images.get(&String::from("a")), Some(ImageSlot(Some(h))) if h.bytes == vec![1, 2]));
    assert!(matches!(images.get(&String::from("b")), Some(ImageSlot(None))));
    assert!(images.get(&String::from("c")).is_none());
    assert_eq!(images_from(&ComponentSettings::new()).len(), 0);
}

#[test]
fn an_empty_repository() {
    let repository = Repository::default();
    assert_eq!(repository.layout_images.len(), 0);
    assert!(repository.game_icon.is_none());
    assert!(repository.splits_icon.is_empty());
    assert!(repository.layout_image(&vec![], &String::from("x")).is_none());
}

#[test]
fn a_channel_of_a_color_is_replaced() {
    let mut values = ComponentSettings::new();
    values.insert(String::from("c"), SettingsValue::Color([num(0.1), num(0.2), num(0.3), num(0.4)]));
    values.insert(String::from("n"), SettingsValue::Number(num(5.0)));
    set_color_channel(&mut values, &String::from("c"), 2, num(0.9));
    set_color_channel(&mut values, &String::from("c"), 3, num(0.8));
    set_color_channel(&mut values, &String::from("n"), 0, num(0.9));
    set_color_channel(&mut values, &String::from("missing"), 0, num(0.9));
    assert!(matches!(
        values.get(&String::from("c")),
        Some(SettingsValue::Color(c)) if *c == [num(0.1), num(0.2), num(0.9), num(0.8)]
    ));
    assert!(matches!(values.get(&String::from("n")), Some(SettingsValue::Number(n)) if *n == num(5.0)));
    assert_eq!(values.len(), 2);
    set_color_channel(&mut values, &String::from("c"), usize::MAX, num(0.5));
    assert!(matches!(
        values.get(&String::from("c")),
        Some(SettingsValue::Color(c)) if c[3] == num(0.5) && c[2] == num(0.9)
    ));
}
