//! The named-key directory and the argument store.

use casper_types::bytesrepr::ToBytes;
use casper_types::CLValue;
use native_host::args::RuntimeArgs;
use native_host::named_keys::NamedKeys;
use native_host::status::ApiFailure;
use native_host::uref::{AccessRights, Key, URef};
use native_host::value::TypedValue;

fn key(seed: u8) -> Key {
    Key::from_uref(&URef::new([seed; 32], AccessRights::read_add_write()))
}

fn typed(value: CLValue) -> TypedValue {
    TypedValue::from_bytes(&value.to_bytes().unwrap()).unwrap()
}

#[test]
fn a_name_never_put_is_not_held() {
    let mut directory = NamedKeys::new();
    assert_eq!(directory.len(), 0);
    assert!(!directory.has("name"));
    assert_eq!(directory.get("name").err(), Some(ApiFailure::MissingKey));
    directory.put("symbol".to_string(), key(1));
    directory.put("decimals".to_string(), key(2));
    assert!(!directory.has("name"));
    assert!(!directory.has(""));
    assert!(!directory.has("Symbol"));
    assert_eq!(directory.get("name").err(), Some(ApiFailure::MissingKey));
}

#[test]
fn put_then_get_then_remove() {
    let mut directory = NamedKeys::new();
    directory.put("name".to_string(), key(1));
    assert!(directory.has("name"));
    assert!(directory.get("name").unwrap().same_as(&key(1)));
    directory.remove("name");
    assert!(!directory.has("name"));
    assert_eq!(directory.get("name").err(), Some(ApiFailure::MissingKey));
    assert_eq!(directory.len(), 0);
}

#[test]
fn put_overwrites_and_keeps_the_place() {
    let mut directory = NamedKeys::new();
    directory.put("a".to_string(), key(1));
    directory.put("b".to_string(), key(2));
    directory.put("c".to_string(), key(3));
    directory.put("b".to_string(), key(9));
    assert_eq!(directory.len(), 3);
    assert!(directory.get("b").unwrap().same_as(&key(9)));
    assert!(directory.get("a").unwrap().same_as(&key(1)));
    assert!(directory.get("c").unwrap().same_as(&key(3)));
    assert_eq!(directory.name_at(0), "a");
    assert_eq!(directory.name_at(1), "b");
    assert_eq!(directory.name_at(2), "c");
}

#[test]
fn names_stay_in_the_order_in_which_they_came() {
    let mut directory = NamedKeys::new();
    for name in ["zeta", "alpha", "mid"] {
        directory.put(name.to_string(), key(0));
    }
    assert_eq!(directory.name_at(0), "zeta");
    assert_eq!(directory.name_at(1), "alpha");
    assert_eq!(directory.name_at(2), "mid");
    directory.remove("zeta");
    assert_eq!(directory.len(), 2);
    assert_eq!(directory.name_at(0), "alpha");
    assert_eq!(directory.name_at(1), "mid");
    directory.put("zeta".to_string(), key(0));
    assert_eq!(directory.name_at(2), "zeta");
}

#[test]
fn removing_a_name_that_is_not_held_changes_nothing() {
    let mut directory = NamedKeys::new();
    directory.put("a".to_string(), key(1));
    directory.remove("b");
    assert_eq!(directory.len(), 1);
    assert!(directory.get("a").unwrap().same_as(&key(1)));
}

#[test]
fn the_empty_name_is_a_name_like_any_other() {
    let mut directory = NamedKeys::new();
    directory.put(String::new(), key(1));
    assert!(directory.has(""));
    assert!(!directory.has(" "));
    directory.remove("");
    assert!(!directory.has(""));
}

#[test]
fn arguments_are_found_by_name() {
    let mut args = RuntimeArgs::new();
    assert!(args.is_empty());
    assert!(args.get("name").is_none());
    args.insert("name".to_string(), typed(CLValue::from_t("Name").unwrap()));
    args.insert("decimals".to_string(), typed(CLValue::from_t(100u8).unwrap()));
    assert_eq!(args.len(), 2);
    assert!(!args.is_empty());
    assert_eq!(args.get("name").unwrap().inner_bytes(), "Name".to_bytes().unwrap().as_slice());
    assert_eq!(args.get("decimals").unwrap().inner_bytes(), &[100u8]);
    assert!(args.get("symbol").is_none());
    assert!(args.get("Name").is_none());
}

#[test]
fn the_first_argument_of_a_name_answers() {
    let mut args = RuntimeArgs::new();
    args.insert("amount".to_string(), typed(CLValue::from_t(1u8).unwrap()));
    args.insert("amount".to_string(), typed(CLValue::from_t(2u8).unwrap()));
    assert_eq!(args.len(), 2);
    assert_eq!(args.get("amount").unwrap().inner_bytes(), &[1u8]);
    let mut theirs = casper_types::RuntimeArgs::new();
    theirs.insert("amount", 1u8).unwrap();
    theirs.insert("amount", 2u8).unwrap();
    assert_eq!(theirs.get("amount").unwrap().inner_bytes(), &vec![1u8]);
}
