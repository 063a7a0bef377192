//! References and keys, held against the encoding of casper-types.

use casper_types::account::AccountHash;
use casper_types::bytesrepr::{deserialize, ToBytes};
use casper_types::{DeployHash, EraId, TransferAddr};
use native_host::uref::{AccessRights, Key, URef};

fn casper_keys() -> Vec<casper_types::Key> {
    vec![
        casper_types::Key::Account(AccountHash::new([1u8; 32])),
        casper_types::Key::Hash([2u8; 32]),
        casper_types::Key::URef(casper_types::URef::new(
            [3u8; 32],
            casper_types::AccessRights::READ_ADD_WRITE,
        )),
        casper_types::Key::URef(casper_types::URef::new(
            [3u8; 32],
            casper_types::AccessRights::NONE,
        )),
        casper_types::Key::Transfer(TransferAddr::new([4u8; 32])),
        casper_types::Key::DeployInfo(DeployHash::new([5u8; 32])),
        casper_types::Key::EraInfo(EraId::new(6)),
        casper_types::Key::Balance([7u8; 32]),
        casper_types::Key::Bid(AccountHash::new([8u8; 32])),
        casper_types::Key::Withdraw(AccountHash::new([9u8; 32])),
        casper_types::Key::Dictionary([10u8; 32]),
        casper_types::Key::SystemContractRegistry,
    ]
}

#[test]
fn access_rights_are_three_bits() {
    for bits in 0u8..=7 {
        let rights = AccessRights::from_bits(bits).unwrap();
        assert_eq!(rights.bits(), bits);
        let theirs = casper_types::AccessRights::from_bits(bits).unwrap();
        assert_eq!(rights.is_readable(), theirs.is_readable());
        assert_eq!(rights.is_writeable(), theirs.is_writeable());
        assert_eq!(rights.is_addable(), theirs.is_addable());
    }
    for bits in [8u8, 9, 16, 0x80, 0xff] {
        assert!(AccessRights::from_bits(bits).is_none());
        assert!(casper_types::AccessRights::from_bits(bits).is_none());
    }
}

#[test]
fn read_add_write_holds_all_three() {
    let rights = AccessRights::read_add_write();
    assert_eq!(rights.bits(), 7);
    assert_eq!(rights.bits(), casper_types::AccessRights::READ_ADD_WRITE.bits());
    assert!(rights.is_readable() && rights.is_addable() && rights.is_writeable());
}

#[test]
fn uref_encoding_is_that_of_casper_types() {
    for bits in 0u8..=7 {
        let mut addr = [0u8; 32];
        for (i, byte) in addr.iter_mut().enumerate() {
            *byte = (i as u8).wrapping_mul(7).wrapping_add(bits);
        }
        let ours = URef::new(addr, AccessRights::from_bits(bits).unwrap());
        let theirs =
            casper_types::URef::new(addr, casper_types::AccessRights::from_bits(bits).unwrap());
        assert_eq!(ours.to_bytes(), theirs.to_bytes().unwrap());
        assert_eq!(ours.to_bytes().len(), 33);
        assert_eq!(ours.addr(), addr);
        assert_eq!(ours.access_rights().bits(), bits);
        let back: casper_types::URef = deserialize(ours.to_bytes()).unwrap();
        assert_eq!(back, theirs);
    }
}

#[test]
fn key_of_a_reference_is_that_of_casper_types() {
    for bits in 0u8..=7 {
        let addr = [0xabu8; 32];
        let ours = Key::from_uref(&URef::new(addr, AccessRights::from_bits(bits).unwrap()));
        let theirs = casper_types::Key::from(casper_types::URef::new(
            addr,
            casper_types::AccessRights::from_bits(bits).unwrap(),
        ));
        assert_eq!(ours.as_bytes(), theirs.to_bytes().unwrap().as_slice());
        assert_eq!(ours.as_bytes()[0], 2);
        assert_eq!(&ours.as_bytes()[1..33], &addr);
        assert_eq!(ours.as_bytes()[33], bits);
    }
}

#[test]
fn keys_are_read_as_casper_types_reads_them() {
    for theirs in casper_keys() {
        let bytes = theirs.to_bytes().unwrap();
        let ours = Key::from_bytes(&bytes).unwrap();
        assert_eq!(ours.as_bytes(), bytes.as_slice());
        let back: casper_types::Key = deserialize(ours.as_bytes().to_vec()).unwrap();
        assert_eq!(back, theirs);
    }
}

#[test]
fn key_round_trip() {
    for theirs in casper_keys() {
        let first = Key::from_bytes(&theirs.to_bytes().unwrap()).unwrap();
        let second = Key::from_bytes(first.as_bytes()).unwrap();
        assert!(first.same_as(&second));
        assert!(first.duplicate().same_as(&first));
    }
}

#[test]
fn a_key_is_held_in_its_canonical_encoding() {
    let mut bytes = vec![10u8];
    bytes.extend_from_slice(&[0x55u8; 32]);
    let key = Key::from_bytes(&bytes).unwrap();
    assert_ne!(key.as_bytes(), bytes.as_slice());
    assert_eq!(
        key.as_bytes(),
        casper_types::Key::SystemContractRegistry.to_bytes().unwrap().as_slice()
    );
}

#[test]
fn malformed_keys_are_refused_as_casper_types_refuses_them() {
    let mut bad_rights = vec![2u8];
    bad_rights.extend_from_slice(&[1u8; 32]);
    bad_rights.push(8);
    let mut left_over = casper_types::Key::Hash([2u8; 32]).to_bytes().unwrap();
    left_over.push(0);
    let cases: Vec<Vec<u8>> = vec![
        vec![],
        vec![1],
        vec![11],
        vec![0xff, 1, 2, 3],
        vec![1, 2, 3],
        vec![5, 1, 2, 3, 4, 5, 6, 7],
        bad_rights,
        left_over,
    ];
    for bytes in cases {
        assert!(deserialize::<casper_types::Key>(bytes.clone()).is_err());
        assert!(Key::from_bytes(&bytes).is_none());
    }
}

#[test]
fn keys_differ_where_their_bytes_differ() {
    let a = Key::from_uref(&URef::new([1u8; 32], AccessRights::read_add_write()));
    let b = Key::from_uref(&URef::new([2u8; 32], AccessRights::read_add_write()));
    let c = Key::from_uref(&URef::new([1u8; 32], AccessRights::from_bits(1).unwrap()));
    assert!(a.same_as(&a));
    assert!(!a.same_as(&b));
    assert!(!a.same_as(&c));
}
