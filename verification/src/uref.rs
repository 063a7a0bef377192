//! References and keys: the addresses under which the global value store
//! holds its values.
//!
//! A reference is a 32-byte address with the rights that its holder has over
//! the value at that address. A key is any address of the store; it is known
//! here by its canonical encoding, the bytes by which keys are told apart.

use crate::codec::bytes_equal;
use vstd::prelude::*;
use vstd::slice::slice_to_vec;

verus! {

/// The number of bytes of the address of a reference.
pub const UREF_ADDR_LENGTH: usize = 32;

/// The number of bytes of an encoded reference: the address and the rights.
pub const UREF_SERIALIZED_LENGTH: usize = 33;

/// The tag that starts the encoding of a key that is a reference.
pub const KEY_TAG_UREF: u8 = 2;

/// The rights that hold all three permissions.
pub const RIGHTS_READ_ADD_WRITE: u8 = 7;

/// The bit of the permission to read.
pub const RIGHTS_READ: u8 = 1;

/// The bit of the permission to write.
pub const RIGHTS_WRITE: u8 = 2;

/// The bit of the permission to add.
pub const RIGHTS_ADD: u8 = 4;

/// The canonical encoding of the key that `bytes` encodes, where `bytes`
/// encodes a key: what `casper_types::bytesrepr::deserialize::<Key>` followed
/// by `to_bytes` gives.
pub uninterp spec fn spec_canonical_key(bytes: Seq<u8>) -> Option<Seq<u8>>;

/// The encoding of a reference: its address, then its rights.
pub open spec fn uref_encoding(addr: Seq<u8>, rights: u8) -> Seq<u8> {
    addr + seq![rights]
}

/// The encoding of the key that is a reference: the tag of references, then
/// the encoding of the reference.
pub open spec fn uref_key_encoding(addr: Seq<u8>, rights: u8) -> Seq<u8> {
    seq![KEY_TAG_UREF] + uref_encoding(addr, rights)
}

/// Calls `casper_types::bytesrepr::deserialize::<Key>` on a copy of `bytes`
/// and, where that gives a key, `to_bytes` on the key. The contract names the
/// result, and claims that the encoding that `to_bytes` gives is itself read
/// back as the same key.
#[verifier::external_body]
fn canonical_key(bytes: &[u8]) -> (canonical: Option<Vec<u8>>)
    ensures
        canonical.is_some() == spec_canonical_key(bytes@).is_some(),
        canonical.is_some() ==> spec_canonical_key(bytes@) == Some(canonical.unwrap()@),
        canonical.is_some() ==> spec_canonical_key(canonical.unwrap()@) == Some(
            canonical.unwrap()@,
        ),
{
    match casper_types::bytesrepr::deserialize::<casper_types::Key>(bytes.to_vec()) {
        Ok(key) => casper_types::bytesrepr::ToBytes::to_bytes(&key).ok(),
        Err(_) => None,
    }
}

/// Calls `to_bytes` on the `casper_types::URef` of this address and these
/// rights. The contract claims that the result is the 32 bytes of the address
/// followed by the byte of the rights.
#[verifier::external_body]
fn encode_uref(addr: &[u8; 32], rights: u8) -> (encoded: Vec<u8>)
    requires
        rights <= RIGHTS_READ_ADD_WRITE,
    ensures
        encoded@ == uref_encoding(addr@, rights),
{
    let access_rights = casper_types::AccessRights::from_bits_truncate(rights);
    let uref = casper_types::URef::new(*addr, access_rights);
    casper_types::bytesrepr::ToBytes::to_bytes(&uref).unwrap_or_default()
}

/// Calls `casper_types::Key::from` on the `casper_types::URef` of this
/// address and these rights, and `to_bytes` on the key. The contract claims
/// that the result is the tag 2, the 32 bytes of the address and the byte of
/// the rights, and that these bytes are the canonical encoding of a key.
#[verifier::external_body]
fn encode_uref_key(addr: &[u8; 32], rights: u8) -> (encoded: Vec<u8>)
    requires
        rights <= RIGHTS_READ_ADD_WRITE,
    ensures
        encoded@ == uref_key_encoding(addr@, rights),
        spec_canonical_key(encoded@) == Some(encoded@),
{
    let access_rights = casper_types::AccessRights::from_bits_truncate(rights);
    let key = casper_types::Key::from(casper_types::URef::new(*addr, access_rights));
    casper_types::bytesrepr::ToBytes::to_bytes(&key).unwrap_or_default()
}

/// The rights that come with a reference: any of read, write and add.
#[derive(Clone, Copy, Debug)]
pub struct AccessRights {
    bits: u8,
}

impl View for AccessRights {
    type V = u8;

    closed spec fn view(&self) -> u8 {
        self.bits
    }
}

impl AccessRights {
    #[verifier::type_invariant]
    pub closed spec fn in_range(&self) -> bool {
        self.bits <= RIGHTS_READ_ADD_WRITE
    }

    /// The rights of these bits, or nothing where a bit is set that stands
    /// for no permission.
    pub fn from_bits(bits: u8) -> (rights: Option<AccessRights>)
        ensures
            bits <= RIGHTS_READ_ADD_WRITE ==> rights.is_some() && rights.unwrap()@ == bits,
            bits > RIGHTS_READ_ADD_WRITE ==> rights.is_none(),
    {
        if bits <= RIGHTS_READ_ADD_WRITE {
            Some(AccessRights { bits })
        } else {
            None
        }
    }

    /// The rights to read, to add and to write.
    pub fn read_add_write() -> (rights: AccessRights)
        ensures
            rights@ == RIGHTS_READ_ADD_WRITE,
    {
        AccessRights { bits: RIGHTS_READ_ADD_WRITE }
    }

    /// The bits of the rights.
    pub fn bits(&self) -> (bits: u8)
        ensures
            bits == self@,
            bits <= RIGHTS_READ_ADD_WRITE,
    {
        proof {
            use_type_invariant(self);
        }
        self.bits
    }

    /// Whether the rights include reading.
    pub fn is_readable(&self) -> (readable: bool)
        ensures
            readable == (self@ & RIGHTS_READ == RIGHTS_READ),
    {
        self.bits & RIGHTS_READ == RIGHTS_READ
    }

    /// Whether the rights include writing.
    pub fn is_writeable(&self) -> (writeable: bool)
        ensures
            writeable == (self@ & RIGHTS_WRITE == RIGHTS_WRITE),
    {
        self.bits & RIGHTS_WRITE == RIGHTS_WRITE
    }

    /// Whether the rights include adding.
    pub fn is_addable(&self) -> (addable: bool)
        ensures
            addable == (self@ & RIGHTS_ADD == RIGHTS_ADD),
    {
        self.bits & RIGHTS_ADD == RIGHTS_ADD
    }
}

/// What a reference is: its address and the bits of its rights.
pub struct URefView {
    pub addr: Seq<u8>,
    pub rights: u8,
}

/// A reference into the global value store.
#[derive(Clone, Copy, Debug)]
pub struct URef {
    addr: [u8; 32],
    rights: AccessRights,
}

impl View for URef {
    type V = URefView;

    closed spec fn view(&self) -> URefView {
        URefView { addr: self.addr@, rights: self.rights@ }
    }
}

impl URef {
    /// The reference to `addr` with `rights`.
    pub fn new(addr: [u8; 32], rights: AccessRights) -> (uref: URef)
        ensures
            uref@ == (URefView { addr: addr@, rights: rights@ }),
    {
        URef { addr, rights }
    }

    /// The address of the reference.
    pub fn addr(&self) -> (addr: [u8; 32])
        ensures
            addr@ == self@.addr,
    {
        self.addr
    }

    /// The rights of the reference.
    pub fn access_rights(&self) -> (rights: AccessRights)
        ensures
            rights@ == self@.rights,
    {
        self.rights
    }

    /// The encoding of the reference.
    pub fn to_bytes(&self) -> (encoded: Vec<u8>)
        ensures
            encoded@ == uref_encoding(self@.addr, self@.rights),
            encoded@.len() == UREF_SERIALIZED_LENGTH,
    {
        let bits = self.rights.bits();
        encode_uref(&self.addr, bits)
    }
}

/// An address of the global value store, held as its canonical encoding.
#[derive(Debug)]
pub struct Key {
    bytes: Vec<u8>,
}

impl View for Key {
    type V = Seq<u8>;

    closed spec fn view(&self) -> Seq<u8> {
        self.bytes@
    }
}

impl Key {
    #[verifier::type_invariant]
    pub closed spec fn canonical(&self) -> bool {
        spec_canonical_key(self.bytes@) == Some(self.bytes@)
    }

    /// Reads a key from an encoding of it, or nothing where `bytes` encodes
    /// no key.
    pub fn from_bytes(bytes: &[u8]) -> (key: Option<Key>)
        ensures
            key.is_some() == spec_canonical_key(bytes@).is_some(),
            key.is_some() ==> spec_canonical_key(bytes@) == Some(key.unwrap()@),
    {
        match canonical_key(bytes) {
            Some(canonical) => Some(Key { bytes: canonical }),
            None => None,
        }
    }

    /// The key that is the reference `uref`.
    pub fn from_uref(uref: &URef) -> (key: Key)
        ensures
            key@ == uref_key_encoding(uref@.addr, uref@.rights),
    {
        let bits = uref.rights.bits();
        Key { bytes: encode_uref_key(&uref.addr, bits) }
    }

    /// The canonical encoding of the key, which `from_bytes` reads back as
    /// this key.
    pub fn as_bytes(&self) -> (bytes: &[u8])
        ensures
            bytes@ == self@,
            spec_canonical_key(bytes@) == Some(self@),
    {
        proof {
            use_type_invariant(self);
        }
        self.bytes.as_slice()
    }

    /// A copy of the key.
    pub fn duplicate(&self) -> (copy: Key)
        ensures
            copy@ == self@,
    {
        proof {
            use_type_invariant(self);
        }
        Key { bytes: slice_to_vec(self.bytes.as_slice()) }
    }

    /// Whether the two keys are the same address.
    pub fn same_as(&self, other: &Key) -> (same: bool)
        ensures
            same == (self@ == other@),
    {
        bytes_equal(self.bytes.as_slice(), other.bytes.as_slice())
    }
}

} // verus!
