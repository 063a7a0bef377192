//! Frames and names, held against the encoding of casper-types.

use casper_types::bytesrepr::{deserialize, ToBytes};
use native_host::codec::{
    bytes_equal, copy_into, decode_name, encode_name, read_frame, str_equal, write_frame,
};

#[test]
fn frame_is_length_prefix_then_payload() {
    assert_eq!(write_frame(&[0xaa, 0xbb, 0xcc]), Some(vec![3, 0, 0, 0, 0xaa, 0xbb, 0xcc]));
    assert_eq!(write_frame(&[]), Some(vec![0, 0, 0, 0]));
}

#[test]
fn frame_length_is_little_endian() {
    let payload = vec![7u8; 0x0102];
    let frame = write_frame(&payload).unwrap();
    assert_eq!(&frame[..4], &[0x02, 0x01, 0x00, 0x00]);
    assert_eq!(frame.len(), 4 + 0x0102);
}

#[test]
fn read_frame_finds_the_end_of_the_frame() {
    assert_eq!(read_frame(&[2, 0, 0, 0, 9, 9]), Some(6));
    assert_eq!(read_frame(&[2, 0, 0, 0, 9, 9, 1, 2, 3]), Some(6));
    assert_eq!(read_frame(&[0, 0, 0, 0]), Some(4));
}

#[test]
fn read_frame_refuses_what_is_cut_short() {
    assert_eq!(read_frame(&[]), None);
    assert_eq!(read_frame(&[2, 0, 0]), None);
    assert_eq!(read_frame(&[2, 0, 0, 0, 9]), None);
    assert_eq!(read_frame(&[0xff, 0xff, 0xff, 0xff, 1, 2, 3]), None);
}

#[test]
fn name_encoding_is_that_of_casper_types() {
    for name in ["", "a", "balances", "total_supply", "Zażółć gęślą jaźń", "名前"] {
        assert_eq!(encode_name(name), Some(name.to_string().to_bytes().unwrap()));
    }
}

#[test]
fn name_decoding_is_that_of_casper_types() {
    for name in ["", "a", "balances", "Zażółć gęślą jaźń", "名前"] {
        let bytes = name.to_string().to_bytes().unwrap();
        let by_casper: String = deserialize(bytes.clone()).unwrap();
        assert_eq!(decode_name(&bytes), Some(by_casper));
    }
}

#[test]
fn name_round_trip() {
    for name in ["", "name", "symbol", "a b c", "ünïcödé"] {
        let bytes = encode_name(name).unwrap();
        assert_eq!(decode_name(&bytes), Some(name.to_string()));
        assert_eq!(encode_name(&decode_name(&bytes).unwrap()), Some(bytes));
    }
}

#[test]
fn malformed_names_are_refused_as_casper_types_refuses_them() {
    let cases: Vec<Vec<u8>> = vec![
        vec![],
        vec![1, 0, 0],
        vec![2, 0, 0, 0, b'a'],
        vec![1, 0, 0, 0, b'a', b'b'],
        vec![1, 0, 0, 0, 0xff],
        vec![2, 0, 0, 0, 0xc3, 0x28],
        vec![3, 0, 0, 0, 0xed, 0xa0, 0x80],
    ];
    for bytes in cases {
        assert!(deserialize::<String>(bytes.clone()).is_err());
        assert_eq!(decode_name(&bytes), None);
    }
}

#[test]
fn bytes_equal_compares_content() {
    assert!(bytes_equal(&[], &[]));
    assert!(bytes_equal(&[1, 2, 3], &[1, 2, 3]));
    assert!(!bytes_equal(&[1, 2, 3], &[1, 2, 4]));
    assert!(!bytes_equal(&[1, 2, 3], &[1, 2]));
    assert!(!bytes_equal(&[], &[0]));
}

#[test]
fn str_equal_compares_content() {
    assert!(str_equal("", ""));
    assert!(str_equal("name", "name"));
    assert!(!str_equal("name", "Name"));
    assert!(!str_equal("name", "names"));
}

#[test]
fn copy_into_fills_the_start_and_keeps_the_rest() {
    let mut dest = vec![9u8; 5];
    copy_into(&mut dest, &[1, 2, 3]);
    assert_eq!(dest, vec![1, 2, 3, 9, 9]);
    copy_into(&mut dest, &[]);
    assert_eq!(dest, vec![1, 2, 3, 9, 9]);
    copy_into(&mut dest, &[5, 4, 3, 2, 1]);
    assert_eq!(dest, vec![5, 4, 3, 2, 1]);
}
