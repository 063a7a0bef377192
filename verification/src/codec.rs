//! The byte framing shared by names and typed values: a byte string is
//! written as its length in 32 bits, least significant byte first, followed by
//! the bytes themselves.

use vstd::bytes::{
    lemma_auto_spec_u32_to_from_le_bytes, spec_u32_from_le_bytes, spec_u32_to_le_bytes,
    u32_from_le_bytes, u32_to_le_bytes,
};
use vstd::prelude::*;
use vstd::slice::slice_subrange;
use vstd::utf8::{
    decode_utf8, decode_utf8_encode_utf8, encode_utf8, encode_utf8_decode_utf8,
    encode_utf8_valid_utf8, valid_utf8,
};

verus! {

/// The number of bytes of a length prefix.
pub const LENGTH_PREFIX_SIZE: usize = 4;

/// The longest byte string that a frame can hold.
pub const MAX_FRAME_PAYLOAD: usize = 0xffff_ffff;

/// The frame of `payload`: its length prefix, then the payload.
pub open spec fn framed(payload: Seq<u8>) -> Seq<u8> {
    spec_u32_to_le_bytes(payload.len() as u32) + payload
}

/// The length that the prefix at the start of `bytes` announces.
pub open spec fn announced_len(bytes: Seq<u8>) -> int {
    spec_u32_from_le_bytes(bytes.subrange(0, LENGTH_PREFIX_SIZE as int)) as int
}

/// Whether `bytes` starts with a whole frame.
pub open spec fn has_frame(bytes: Seq<u8>) -> bool {
    &&& bytes.len() >= LENGTH_PREFIX_SIZE
    &&& bytes.len() - LENGTH_PREFIX_SIZE >= announced_len(bytes)
}

/// Where the frame at the start of `bytes` ends.
pub open spec fn frame_end(bytes: Seq<u8>) -> int {
    LENGTH_PREFIX_SIZE + announced_len(bytes)
}

/// The payload of the frame at the start of `bytes`.
pub open spec fn frame_payload(bytes: Seq<u8>) -> Seq<u8> {
    bytes.subrange(LENGTH_PREFIX_SIZE as int, frame_end(bytes))
}

/// What follows the frame at the start of `bytes`.
pub open spec fn frame_rest(bytes: Seq<u8>) -> Seq<u8> {
    bytes.subrange(frame_end(bytes), bytes.len() as int)
}

/// A frame that is followed by `rest` is read back as it was written.
pub proof fn lemma_frame_round_trip(payload: Seq<u8>, rest: Seq<u8>)
    requires
        payload.len() <= MAX_FRAME_PAYLOAD,
    ensures
        has_frame(framed(payload) + rest),
        frame_payload(framed(payload) + rest) == payload,
        frame_rest(framed(payload) + rest) == rest,
{
    lemma_auto_spec_u32_to_from_le_bytes();
    let prefix = spec_u32_to_le_bytes(payload.len() as u32);
    let bytes = framed(payload) + rest;
    assert(bytes.subrange(0, LENGTH_PREFIX_SIZE as int) =~= prefix);
}

/// Bytes that start with a frame are that frame written anew, then the rest.
pub proof fn lemma_frame_canonical(bytes: Seq<u8>)
    requires
        has_frame(bytes),
    ensures
        frame_payload(bytes).len() <= MAX_FRAME_PAYLOAD,
        framed(frame_payload(bytes)) + frame_rest(bytes) == bytes,
{
    lemma_auto_spec_u32_to_from_le_bytes();
    assert(framed(frame_payload(bytes)) + frame_rest(bytes) =~= bytes);
}

/// Writes the frame of `payload`, or nothing where the payload is too long
/// for a length prefix.
pub fn write_frame(payload: &[u8]) -> (frame: Option<Vec<u8>>)
    ensures
        payload@.len() <= MAX_FRAME_PAYLOAD ==> frame.is_some() && frame.unwrap()@ == framed(
            payload@,
        ),
        payload@.len() > MAX_FRAME_PAYLOAD ==> frame.is_none(),
{
    if payload.len() > MAX_FRAME_PAYLOAD {
        return None;
    }
    let mut frame = u32_to_le_bytes(payload.len() as u32);
    frame.extend_from_slice(payload);
    Some(frame)
}

/// Finds the frame at the start of `bytes`: the index at which it ends, or
/// nothing where `bytes` is cut short.
pub fn read_frame(bytes: &[u8]) -> (end: Option<usize>)
    ensures
        has_frame(bytes@) ==> end == Some(frame_end(bytes@) as usize),
        has_frame(bytes@) ==> LENGTH_PREFIX_SIZE <= frame_end(bytes@) <= bytes@.len(),
        !has_frame(bytes@) ==> end.is_none(),
{
    if bytes.len() < LENGTH_PREFIX_SIZE {
        return None;
    }
    let announced = u32_from_le_bytes(slice_subrange(bytes, 0, LENGTH_PREFIX_SIZE)) as usize;
    if bytes.len() - LENGTH_PREFIX_SIZE < announced {
        return None;
    }
    Some(LENGTH_PREFIX_SIZE + announced)
}

/// The encoding of a name: the frame of its UTF-8 bytes.
pub open spec fn name_encoding(name: Seq<char>) -> Seq<u8> {
    framed(encode_utf8(name))
}

/// Whether `bytes` is the encoding of a name: one frame and nothing after
/// it, holding valid UTF-8.
pub open spec fn is_name_encoding(bytes: Seq<u8>) -> bool {
    &&& has_frame(bytes)
    &&& frame_end(bytes) == bytes.len()
    &&& valid_utf8(frame_payload(bytes))
}

/// The name that `bytes` encodes.
pub open spec fn name_decoding(bytes: Seq<u8>) -> Seq<char> {
    decode_utf8(frame_payload(bytes))
}

/// Calls `String::from_utf8` of std on a copy of `bytes`. The contract claims
/// that it accepts exactly the byte strings that are valid UTF-8, and that
/// the string it gives holds the characters that they encode.
#[verifier::external_body]
fn string_from_utf8(bytes: &[u8]) -> (text: Option<String>)
    ensures
        valid_utf8(bytes@) ==> text.is_some() && text.unwrap()@ == decode_utf8(bytes@),
        !valid_utf8(bytes@) ==> text.is_none(),
{
    String::from_utf8(bytes.to_vec()).ok()
}

/// Writes the encoding of `name`, or nothing where the name is too long for
/// a length prefix.
pub fn encode_name(name: &str) -> (bytes: Option<Vec<u8>>)
    ensures
        encode_utf8(name@).len() <= MAX_FRAME_PAYLOAD ==> bytes.is_some() && bytes.unwrap()@
            == name_encoding(name@),
        encode_utf8(name@).len() > MAX_FRAME_PAYLOAD ==> bytes.is_none(),
{
    write_frame(name.as_bytes())
}

/// Reads a name from its encoding, or nothing where `bytes` is not the
/// encoding of a name.
pub fn decode_name(bytes: &[u8]) -> (name: Option<String>)
    ensures
        is_name_encoding(bytes@) ==> name.is_some() && name.unwrap()@ == name_decoding(bytes@),
        !is_name_encoding(bytes@) ==> name.is_none(),
{
    match read_frame(bytes) {
        None => None,
        Some(end) => {
            if end != bytes.len() {
                return None;
            }
            string_from_utf8(slice_subrange(bytes, LENGTH_PREFIX_SIZE, end))
        },
    }
}

/// A name that is encoded and decoded again is the name that it was.
pub proof fn law_name_round_trip(name: Seq<char>)
    requires
        encode_utf8(name).len() <= MAX_FRAME_PAYLOAD,
    ensures
        is_name_encoding(name_encoding(name)),
        name_decoding(name_encoding(name)) == name,
{
    let payload = encode_utf8(name);
    lemma_frame_round_trip(payload, Seq::empty());
    encode_utf8_valid_utf8(name);
    encode_utf8_decode_utf8(name);
}

/// The bytes of an encoded name are the encoding of the name that they
/// decode to: a name has one encoding only.
pub proof fn law_name_encoding_is_canonical(bytes: Seq<u8>)
    requires
        is_name_encoding(bytes),
    ensures
        name_encoding(name_decoding(bytes)) == bytes,
{
    lemma_frame_canonical(bytes);
    decode_utf8_encode_utf8(frame_payload(bytes));
}

/// Two strings with the same UTF-8 bytes are the same string.
pub proof fn lemma_utf8_injective(a: Seq<char>, b: Seq<char>)
    requires
        encode_utf8(a) == encode_utf8(b),
    ensures
        a == b,
{
    encode_utf8_decode_utf8(a);
    encode_utf8_decode_utf8(b);
}

/// Whether two byte strings hold the same bytes.
pub fn bytes_equal(a: &[u8], b: &[u8]) -> (same: bool)
    ensures
        same == (a@ == b@),
{
    if a.len() != b.len() {
        return false;
    }
    let mut i: usize = 0;
    while i < a.len()
        invariant
            a@.len() == b@.len(),
            i <= a@.len(),
            forall|j: int| 0 <= j < i ==> a@[j] == b@[j],
        decreases a@.len() - i,
    {
        if a[i] != b[i] {
            return false;
        }
        i += 1;
    }
    assert(a@ =~= b@);
    true
}

/// Copies `src` to the start of `dest`; what follows in `dest` stays.
pub fn copy_into(dest: &mut [u8], src: &[u8])
    requires
        src@.len() <= old(dest)@.len(),
    ensures
        final(dest)@ == src@ + old(dest)@.skip(src@.len() as int),
{
    let mut i: usize = 0;
    while i < src.len()
        invariant
            i <= src@.len(),
            dest@.len() == old(dest)@.len(),
            src@.len() <= dest@.len(),
            forall|j: int| 0 <= j < i ==> dest@[j] == src@[j],
            forall|j: int| i <= j < dest@.len() ==> dest@[j] == old(dest)@[j],
        decreases src@.len() - i,
    {
        dest[i] = src[i];
        i += 1;
    }
}

/// Whether two strings hold the same characters.
pub fn str_equal(a: &str, b: &str) -> (same: bool)
    ensures
        same == (a@ == b@),
{
    let same = bytes_equal(a.as_bytes(), b.as_bytes());
    proof {
        if same {
            lemma_utf8_injective(a@, b@);
        }
    }
    same
}

} // verus!
