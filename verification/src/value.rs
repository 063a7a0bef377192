//! Typed values: the unit that is stored, and that is passed as an argument.
//!
//! A typed value is a byte blob together with the description of its type, so
//! that whoever receives it can reconstruct what it stands for. On the wire it
//! is the frame of the blob followed by the type description.

use crate::codec::{
    bytes_equal, frame_payload, frame_rest, framed, has_frame, lemma_frame_canonical,
    lemma_frame_round_trip, read_frame, write_frame, LENGTH_PREFIX_SIZE,
};
use crate::numeric::{add_compact, add_wrapping, compact_sum, is_compact, wrapping_sum};
use crate::status::ApiFailure;
use vstd::prelude::*;
use vstd::slice::{slice_subrange, slice_to_vec};

verus! {

/// Whether `bytes` is the encoding of a value type: what
/// `casper_types::bytesrepr::deserialize::<CLType>` accepts.
pub uninterp spec fn spec_is_cl_type(bytes: Seq<u8>) -> bool;

/// The tag of the type `i32`.
pub const TAG_I32: u8 = 1;

/// The tag of the type `i64`.
pub const TAG_I64: u8 = 2;

/// The tag of the type `u8`.
pub const TAG_U8: u8 = 3;

/// The tag of the type `u32`.
pub const TAG_U32: u8 = 4;

/// The tag of the type `u64`.
pub const TAG_U64: u8 = 5;

/// The tag of the unsigned integers of 128 bits.
pub const TAG_U128: u8 = 6;

/// The tag of the unsigned integers of 256 bits.
pub const TAG_U256: u8 = 7;

/// The tag of the unsigned integers of 512 bits.
pub const TAG_U512: u8 = 8;

/// The tag of the unit type.
pub const TAG_UNIT: u8 = 9;

/// The encoding of the unit type.
pub open spec fn unit_type() -> Seq<u8> {
    seq![TAG_UNIT]
}

/// Calls `casper_types::bytesrepr::deserialize::<CLType>` on a copy of
/// `bytes` and reports whether it succeeded.
#[verifier::external_body]
fn is_cl_type(bytes: &[u8]) -> (valid: bool)
    ensures
        valid == spec_is_cl_type(bytes@),
{
    casper_types::bytesrepr::deserialize::<casper_types::CLType>(bytes.to_vec()).is_ok()
}

/// What a typed value is: the encoding of its type, and its bytes.
pub struct ValueView {
    pub cl_type: Seq<u8>,
    pub bytes: Seq<u8>,
}

/// The longest encoding of a typed value.
pub const MAX_ENCODED_VALUE: usize = 0xffff_ffff;

/// Whether the value has an encoding: its type is one, and the encoding is
/// not too long.
pub open spec fn encodable(value: ValueView) -> bool {
    &&& spec_is_cl_type(value.cl_type)
    &&& LENGTH_PREFIX_SIZE + value.bytes.len() + value.cl_type.len() <= MAX_ENCODED_VALUE
}

/// The encoding of a typed value: the frame of its bytes, then its type.
pub open spec fn value_encoding(value: ValueView) -> Seq<u8> {
    framed(value.bytes) + value.cl_type
}

/// Whether `bytes` is the encoding of a typed value: a frame, followed by
/// the encoding of a type and nothing else.
pub open spec fn is_value_encoding(bytes: Seq<u8>) -> bool {
    &&& has_frame(bytes)
    &&& spec_is_cl_type(frame_rest(bytes))
}

/// The typed value that `bytes` encodes.
pub open spec fn value_decoding(bytes: Seq<u8>) -> ValueView {
    ValueView { cl_type: frame_rest(bytes), bytes: frame_payload(bytes) }
}

/// Calls `to_bytes` on `casper_types::CLValue::unit()`. The contract claims
/// that the result is the frame of no bytes followed by the single byte 9,
/// which encodes `CLType::Unit`, and that these five bytes are the encoding
/// of a typed value.
#[verifier::external_body]
fn unit_value_encoding() -> (encoded: Vec<u8>)
    ensures
        encoded@ == value_encoding(ValueView { cl_type: unit_type(), bytes: Seq::empty() }),
        is_value_encoding(encoded@),
{
    casper_types::bytesrepr::ToBytes::to_bytes(&casper_types::CLValue::unit()).unwrap_or_default()
}

/// A byte blob with the description of its type.
pub struct TypedValue {
    cl_type: Vec<u8>,
    bytes: Vec<u8>,
}

impl View for TypedValue {
    type V = ValueView;

    closed spec fn view(&self) -> ValueView {
        ValueView { cl_type: self.cl_type@, bytes: self.bytes@ }
    }
}

impl TypedValue {
    #[verifier::type_invariant]
    pub closed spec fn well_typed(&self) -> bool {
        spec_is_cl_type(self.cl_type@)
    }

    /// Makes a typed value of the encoding of a type and of the bytes of a
    /// value, or nothing where `cl_type` is not the encoding of a type.
    pub fn new(cl_type: Vec<u8>, bytes: Vec<u8>) -> (value: Option<TypedValue>)
        ensures
            spec_is_cl_type(cl_type@) ==> value.is_some() && value.unwrap()@ == (ValueView {
                cl_type: cl_type@,
                bytes: bytes@,
            }),
            !spec_is_cl_type(cl_type@) ==> value.is_none(),
    {
        if is_cl_type(cl_type.as_slice()) {
            Some(TypedValue { cl_type, bytes })
        } else {
            None
        }
    }

    /// The unit value: of the unit type, with no bytes.
    pub fn unit() -> (value: TypedValue)
        ensures
            value@ == (ValueView { cl_type: unit_type(), bytes: Seq::empty() }),
    {
        let encoded = unit_value_encoding();
        proof {
            lemma_frame_round_trip(Seq::empty(), unit_type());
        }
        TypedValue::from_bytes(encoded.as_slice()).unwrap()
    }

    /// The encoding of the value's type.
    pub fn cl_type(&self) -> (cl_type: &[u8])
        ensures
            cl_type@ == self@.cl_type,
            spec_is_cl_type(cl_type@),
    {
        proof {
            use_type_invariant(self);
        }
        self.cl_type.as_slice()
    }

    /// The bytes of the value, without its type.
    pub fn inner_bytes(&self) -> (bytes: &[u8])
        ensures
            bytes@ == self@.bytes,
    {
        self.bytes.as_slice()
    }

    /// A copy of the value.
    pub fn duplicate(&self) -> (copy: TypedValue)
        ensures
            copy@ == self@,
    {
        proof {
            use_type_invariant(self);
        }
        TypedValue {
            cl_type: slice_to_vec(self.cl_type.as_slice()),
            bytes: slice_to_vec(self.bytes.as_slice()),
        }
    }

    /// Whether the two values have the same type and the same bytes.
    pub fn same_as(&self, other: &TypedValue) -> (same: bool)
        ensures
            same == (self@ == other@),
    {
        bytes_equal(self.cl_type.as_slice(), other.cl_type.as_slice()) && bytes_equal(
            self.bytes.as_slice(),
            other.bytes.as_slice(),
        )
    }

    /// Whether the value is an integer of fixed width.
    pub fn holds_integer(&self) -> (integer: bool)
        ensures
            integer == is_integer(self@),
    {
        if self.cl_type.len() != 1 {
            return false;
        }
        let tag = self.cl_type[0];
        let width: usize = if tag == TAG_I32 || tag == TAG_U32 {
            4
        } else if tag == TAG_I64 || tag == TAG_U64 {
            8
        } else if tag == TAG_U8 {
            1
        } else {
            return false;
        };
        self.bytes.len() == width
    }

    /// The greatest number of bytes of the value, where it is a big integer.
    pub fn big_integer_width(&self) -> (width: Option<usize>)
        ensures
            width.is_some() == is_big_integer(self@),
            width.is_some() ==> Some(width.unwrap() as nat) == big_integer_width(
                self@.cl_type[0],
            ),
    {
        if self.cl_type.len() != 1 {
            return None;
        }
        let tag = self.cl_type[0];
        let width: usize = if tag == TAG_U128 {
            16
        } else if tag == TAG_U256 {
            32
        } else if tag == TAG_U512 {
            64
        } else {
            return None;
        };
        if self.bytes.len() >= 1 && self.bytes.len() - 1 <= width && self.bytes[0] as usize
            == self.bytes.len() - 1 {
            Some(width)
        } else {
            None
        }
    }

    /// Merges `incoming` into this value: the sum of the two, where both are
    /// integers of the same type, and `TypeMismatch` where they are not.
    pub fn merge(&self, incoming: &TypedValue) -> (sum: Result<TypedValue, ApiFailure>)
        ensures
            mergeable(self@, incoming@) ==> sum.is_ok() && sum.unwrap()@ == merged(
                self@,
                incoming@,
            ),
            !mergeable(self@, incoming@) ==> sum == Err::<TypedValue, ApiFailure>(
                ApiFailure::TypeMismatch,
            ),
    {
        proof {
            use_type_invariant(self);
        }
        if !bytes_equal(self.cl_type.as_slice(), incoming.cl_type.as_slice()) {
            return Err(ApiFailure::TypeMismatch);
        }
        let bytes = if self.holds_integer() && incoming.holds_integer() {
            add_wrapping(self.bytes.as_slice(), incoming.bytes.as_slice())
        } else {
            match (self.big_integer_width(), incoming.big_integer_width()) {
                (Some(width), Some(_)) => add_compact(
                    self.bytes.as_slice(),
                    incoming.bytes.as_slice(),
                    width,
                ),
                _ => {
                    return Err(ApiFailure::TypeMismatch);
                },
            }
        };
        Ok(TypedValue { cl_type: slice_to_vec(self.cl_type.as_slice()), bytes })
    }

    /// Writes the encoding of the value, or nothing where it would be too
    /// long.
    pub fn to_bytes(&self) -> (encoded: Option<Vec<u8>>)
        ensures
            encodable(self@) ==> encoded.is_some() && encoded.unwrap()@ == value_encoding(self@),
            !encodable(self@) ==> encoded.is_none(),
    {
        proof {
            use_type_invariant(self);
        }
        if self.bytes.len() > MAX_ENCODED_VALUE - LENGTH_PREFIX_SIZE {
            return None;
        }
        if self.cl_type.len() > MAX_ENCODED_VALUE - LENGTH_PREFIX_SIZE - self.bytes.len() {
            return None;
        }
        match write_frame(self.bytes.as_slice()) {
            None => None,
            Some(mut encoded) => {
                encoded.extend_from_slice(self.cl_type.as_slice());
                Some(encoded)
            },
        }
    }

    /// Reads a typed value from its encoding, or nothing where `bytes` is not
    /// the encoding of one.
    pub fn from_bytes(bytes: &[u8]) -> (value: Option<TypedValue>)
        ensures
            is_value_encoding(bytes@) ==> value.is_some() && value.unwrap()@ == value_decoding(
                bytes@,
            ),
            !is_value_encoding(bytes@) ==> value.is_none(),
    {
        match read_frame(bytes) {
            None => None,
            Some(end) => {
                let cl_type = slice_subrange(bytes, end, bytes.len());
                if !is_cl_type(cl_type) {
                    return None;
                }
                Some(
                    TypedValue {
                        cl_type: slice_to_vec(cl_type),
                        bytes: slice_to_vec(slice_subrange(bytes, LENGTH_PREFIX_SIZE, end)),
                    },
                )
            },
        }
    }
}

/// The number of bytes of a value of the integer type with this tag, for the
/// integer types of fixed width: `i32`, `i64`, `u8`, `u32` and `u64`.
pub open spec fn integer_width(tag: u8) -> Option<nat> {
    if tag == TAG_I32 || tag == TAG_U32 {
        Some(4)
    } else if tag == TAG_I64 || tag == TAG_U64 {
        Some(8)
    } else if tag == TAG_U8 {
        Some(1)
    } else {
        None
    }
}

/// Whether the value is an integer of fixed width: its type is the tag of
/// such a type, and it has as many bytes as the type asks for.
pub open spec fn is_integer(value: ValueView) -> bool {
    &&& value.cl_type.len() == 1
    &&& integer_width(value.cl_type[0]) == Some(value.bytes.len())
}

/// The greatest number of bytes of an integer of the type with this tag, for
/// the integer types that are held in compact form: the unsigned integers of
/// 128, 256 and 512 bits.
pub open spec fn big_integer_width(tag: u8) -> Option<nat> {
    if tag == TAG_U128 {
        Some(16)
    } else if tag == TAG_U256 {
        Some(32)
    } else if tag == TAG_U512 {
        Some(64)
    } else {
        None
    }
}

/// Whether the value is a big integer: its type is the tag of such a type,
/// and its bytes are a compact form that the type has room for.
pub open spec fn is_big_integer(value: ValueView) -> bool {
    &&& value.cl_type.len() == 1
    &&& big_integer_width(value.cl_type[0]).is_some()
    &&& is_compact(value.bytes, big_integer_width(value.cl_type[0]).unwrap())
}

/// Whether `incoming` can be merged into `stored`: both are integers of the
/// same type.
pub open spec fn mergeable(stored: ValueView, incoming: ValueView) -> bool {
    &&& stored.cl_type == incoming.cl_type
    &&& (is_integer(stored) && is_integer(incoming)) || (is_big_integer(stored)
        && is_big_integer(incoming))
}

/// The value that merging `incoming` into `stored` gives: of the type of
/// both, the sum of the two integers modulo two to the number of bits of
/// the type.
pub open spec fn merged(stored: ValueView, incoming: ValueView) -> ValueView {
    ValueView {
        cl_type: stored.cl_type,
        bytes: if is_integer(stored) {
            wrapping_sum(stored.bytes, incoming.bytes)
        } else {
            compact_sum(
                stored.bytes,
                incoming.bytes,
                big_integer_width(stored.cl_type[0]).unwrap(),
            )
        },
    }
}

/// Round trip: a typed value that is encoded and decoded again is the value
/// that it was.
pub proof fn law_value_round_trip(value: ValueView)
    requires
        encodable(value),
    ensures
        is_value_encoding(value_encoding(value)),
        value_decoding(value_encoding(value)) == value,
{
    lemma_frame_round_trip(value.bytes, value.cl_type);
}

/// The bytes of an encoded value are the encoding of the value that they
/// decode to: a typed value has one encoding only.
pub proof fn law_value_encoding_is_canonical(bytes: Seq<u8>)
    requires
        is_value_encoding(bytes),
    ensures
        spec_is_cl_type(value_decoding(bytes).cl_type),
        value_encoding(value_decoding(bytes)) == bytes,
{
    lemma_frame_canonical(bytes);
}

} // verus!
