//! The global value store, the reference allocator and the host buffer.

use casper_types::bytesrepr::{deserialize, ToBytes};
use casper_types::{CLValue, U256};
use native_host::host_buffer::HostBuffer;
use native_host::status::ApiFailure;
use native_host::storage::GlobalStore;
use native_host::uref::{AccessRights, Key, URef};
use native_host::value::TypedValue;

fn key(seed: u8) -> Key {
    Key::from_uref(&URef::new([seed; 32], AccessRights::read_add_write()))
}

fn typed(value: CLValue) -> TypedValue {
    TypedValue::from_bytes(&value.to_bytes().unwrap()).unwrap()
}

fn number(value: u64) -> TypedValue {
    typed(CLValue::from_t(value).unwrap())
}

fn read_number(store: &GlobalStore, key: &Key) -> u64 {
    let encoded = store.read(key).unwrap().to_bytes().unwrap();
    deserialize::<CLValue>(encoded).unwrap().into_t().unwrap()
}

#[test]
fn an_empty_store_holds_nothing() {
    let store = GlobalStore::new();
    assert!(!store.contains(&key(1)));
    assert_eq!(store.read(&key(1)).err(), Some(ApiFailure::ValueNotFound));
}

#[test]
fn write_then_read() {
    let mut store = GlobalStore::new();
    store.write(key(1), number(10));
    store.write(key(2), number(20));
    assert!(store.contains(&key(1)));
    assert_eq!(read_number(&store, &key(1)), 10);
    assert_eq!(read_number(&store, &key(2)), 20);
    assert_eq!(store.read(&key(3)).err(), Some(ApiFailure::ValueNotFound));
}

#[test]
fn write_replaces() {
    let mut store = GlobalStore::new();
    store.write(key(1), number(10));
    store.write(key(1), typed(CLValue::from_t("ten").unwrap()));
    let stored = store.read(&key(1)).unwrap();
    assert!(stored.same_as(&typed(CLValue::from_t("ten").unwrap())));
    assert_eq!(read_number_or(&store, &key(2)), None);
}

fn read_number_or(store: &GlobalStore, key: &Key) -> Option<u64> {
    match store.read(key) {
        Ok(value) => deserialize::<CLValue>(value.to_bytes().unwrap()).unwrap().into_t().ok(),
        Err(_) => None,
    }
}

#[test]
fn keys_with_different_rights_are_different_keys() {
    let mut store = GlobalStore::new();
    let full = Key::from_uref(&URef::new([1u8; 32], AccessRights::read_add_write()));
    let read = Key::from_uref(&URef::new([1u8; 32], AccessRights::from_bits(1).unwrap()));
    store.write(full.duplicate(), number(1));
    assert!(!store.contains(&read));
    store.write(read.duplicate(), number(2));
    assert_eq!(read_number(&store, &full), 1);
    assert_eq!(read_number(&store, &read), 2);
}

#[test]
fn add_merges_into_what_is_there() {
    let mut store = GlobalStore::new();
    store.write(key(1), number(40));
    assert_eq!(store.add(key(1), number(2)), Ok(()));
    assert_eq!(read_number(&store, &key(1)), 42);
    assert_eq!(store.add(key(1), number(u64::MAX)), Ok(()));
    assert_eq!(read_number(&store, &key(1)), 41);
}

#[test]
fn add_puts_where_nothing_is() {
    let mut store = GlobalStore::new();
    assert_eq!(store.add(key(1), number(5)), Ok(()));
    assert_eq!(read_number(&store, &key(1)), 5);
    assert_eq!(store.add(key(2), typed(CLValue::from_t("text").unwrap())), Ok(()));
    assert!(store.read(&key(2)).unwrap().same_as(&typed(CLValue::from_t("text").unwrap())));
}

#[test]
fn add_of_another_kind_is_a_type_mismatch_and_changes_nothing() {
    let mut store = GlobalStore::new();
    store.write(key(1), number(40));
    store.write(key(2), number(7));
    let incoming: Vec<TypedValue> = vec![
        typed(CLValue::from_t("2").unwrap()),
        typed(CLValue::from_t(2u32).unwrap()),
        typed(CLValue::from_t(2i64).unwrap()),
        typed(CLValue::from_t(U256::from(2)).unwrap()),
        typed(CLValue::from_t(()).unwrap()),
        typed(CLValue::from_t(Some(2u64)).unwrap()),
    ];
    for value in incoming {
        assert_eq!(store.add(key(1), value), Err(ApiFailure::TypeMismatch));
        assert_eq!(read_number(&store, &key(1)), 40);
        assert_eq!(read_number(&store, &key(2)), 7);
    }
}

#[test]
fn add_to_what_is_no_integer_is_a_type_mismatch() {
    let mut store = GlobalStore::new();
    let text = typed(CLValue::from_t("text").unwrap());
    store.write(key(1), text.duplicate());
    assert_eq!(store.add(key(1), number(1)), Err(ApiFailure::TypeMismatch));
    assert_eq!(store.add(key(1), text.duplicate()), Err(ApiFailure::TypeMismatch));
    assert!(store.read(&key(1)).unwrap().same_as(&text));
}

#[test]
fn a_new_reference_holds_its_value() {
    let mut store = GlobalStore::new();
    let uref = store.new_reference_at([5u8; 32], number(99));
    assert_eq!(uref.addr(), [5u8; 32]);
    assert_eq!(uref.access_rights().bits(), 7);
    assert_eq!(read_number(&store, &Key::from_uref(&uref)), 99);
    assert_eq!(read_number(&store, &key(5)), 99);
}

#[test]
fn references_to_different_addresses_keep_their_values() {
    let mut store = GlobalStore::new();
    let first = store.new_reference_at([1u8; 32], number(1));
    let second = store.new_reference_at([2u8; 32], number(2));
    assert_eq!(read_number(&store, &Key::from_uref(&first)), 1);
    assert_eq!(read_number(&store, &Key::from_uref(&second)), 2);
}

#[test]
fn new_references_have_distinct_addresses() {
    let mut store = GlobalStore::new();
    let mut seen = std::collections::BTreeSet::new();
    for i in 0..500u64 {
        let uref = store.new_reference(number(i));
        assert_eq!(uref.access_rights().bits(), 7);
        assert_eq!(read_number(&store, &Key::from_uref(&uref)), i);
        assert!(seen.insert(uref.addr()));
    }
    assert_eq!(seen.len(), 500);
}

#[test]
fn host_buffer_is_read_once() {
    let mut buffer = HostBuffer::new();
    assert_eq!(buffer.pending_len(), None);
    buffer.write(vec![1, 2, 3]);
    assert_eq!(buffer.pending_len(), Some(3));
    let mut dest = vec![0u8; 3];
    assert_eq!(buffer.read(&mut dest), Ok(3));
    assert_eq!(dest, vec![1, 2, 3]);
    assert_eq!(buffer.pending_len(), None);
    let mut again = vec![7u8; 3];
    assert_eq!(buffer.read(&mut again), Ok(0));
    assert_eq!(again, vec![7u8; 3]);
}

#[test]
fn host_buffer_fills_the_start_of_a_longer_destination() {
    let mut buffer = HostBuffer::new();
    buffer.write(vec![1, 2]);
    let mut dest = vec![9u8; 4];
    assert_eq!(buffer.read(&mut dest), Ok(2));
    assert_eq!(dest, vec![1, 2, 9, 9]);
}

#[test]
fn host_buffer_keeps_what_does_not_fit() {
    let mut buffer = HostBuffer::new();
    buffer.write(vec![1, 2, 3]);
    let mut dest = vec![9u8; 2];
    assert_eq!(buffer.read(&mut dest), Err(ApiFailure::BufferSizeMismatch));
    assert_eq!(dest, vec![9, 9]);
    assert_eq!(buffer.pending_len(), Some(3));
    let mut fitting = vec![0u8; 3];
    assert_eq!(buffer.read(&mut fitting), Ok(3));
    assert_eq!(fitting, vec![1, 2, 3]);
}

#[test]
fn host_buffer_write_replaces_and_clear_empties() {
    let mut buffer = HostBuffer::new();
    buffer.write(vec![1]);
    buffer.write(vec![2, 3]);
    assert_eq!(buffer.pending_len(), Some(2));
    buffer.clear();
    assert_eq!(buffer.pending_len(), None);
    buffer.write(vec![]);
    assert_eq!(buffer.pending_len(), Some(0));
    let mut dest = vec![5u8; 1];
    assert_eq!(buffer.read(&mut dest), Ok(0));
    assert_eq!(buffer.pending_len(), None);
}

#[test]
fn add_merges_big_integers() {
    let mut store = GlobalStore::new();
    store.write(key(1), typed(CLValue::from_t(U256::from(1_000_000)).unwrap()));
    assert_eq!(store.add(key(1), typed(CLValue::from_t(U256::from(1)).unwrap())), Ok(()));
    let encoded = store.read(&key(1)).unwrap().to_bytes().unwrap();
    let sum: U256 = deserialize::<CLValue>(encoded).unwrap().into_t().unwrap();
    assert_eq!(sum, U256::from(1_000_001));
}
