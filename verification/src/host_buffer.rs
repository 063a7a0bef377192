//! The host buffer: one slot through which a host function hands over a
//! result that is too long for a fixed output parameter. What is written
//! there is read once.

use crate::codec::copy_into;
use crate::status::ApiFailure;
use vstd::prelude::*;

verus! {

/// The slot of the host buffer: empty, or the bytes of one pending result.
pub struct HostBuffer {
    slot: Option<Vec<u8>>,
}

impl View for HostBuffer {
    type V = Option<Seq<u8>>;

    closed spec fn view(&self) -> Option<Seq<u8>> {
        match self.slot {
            Some(bytes) => Some(bytes@),
            None => None,
        }
    }
}

/// What a read leaves in a destination that held `before`: the bytes that
/// were pending, then what the destination held behind them.
pub open spec fn filled(before: Seq<u8>, pending: Seq<u8>) -> Seq<u8> {
    pending + before.skip(pending.len() as int)
}

/// Whether a destination of `dest_len` bytes can take what is pending.
pub open spec fn read_fits(slot: Option<Seq<u8>>, dest_len: nat) -> bool {
    slot.is_none() || slot.unwrap().len() <= dest_len
}

/// The number of bytes that a read hands over: all that is pending.
pub open spec fn read_count(slot: Option<Seq<u8>>) -> nat {
    match slot {
        Some(pending) => pending.len(),
        None => 0,
    }
}

/// What a read leaves in a destination that held `before`.
pub open spec fn read_dest(slot: Option<Seq<u8>>, before: Seq<u8>) -> Seq<u8> {
    match slot {
        Some(pending) => filled(before, pending),
        None => before,
    }
}

impl HostBuffer {
    /// The empty host buffer.
    pub fn new() -> (buffer: HostBuffer)
        ensures
            buffer@ == None::<Seq<u8>>,
    {
        HostBuffer { slot: None }
    }

    /// Puts `bytes` into the slot, in place of what was pending.
    pub fn write(&mut self, bytes: Vec<u8>)
        ensures
            final(self)@ == Some(bytes@),
    {
        self.slot = Some(bytes);
    }

    /// Empties the slot.
    pub fn clear(&mut self)
        ensures
            final(self)@ == None::<Seq<u8>>,
    {
        self.slot = None;
    }

    /// The number of bytes that are pending, if any are.
    pub fn pending_len(&self) -> (len: Option<usize>)
        ensures
            len.is_some() == self@.is_some(),
            len.is_some() ==> len.unwrap() == self@.unwrap().len(),
    {
        match &self.slot {
            Some(bytes) => Some(bytes.len()),
            None => None,
        }
    }

    /// Hands over what is pending: copies it to the start of `dest`, empties
    /// the slot and gives the number of bytes copied. An empty slot gives
    /// zero bytes. Where `dest` is shorter than what is pending, the failure
    /// is `BufferSizeMismatch`, and the slot and `dest` are as they were.
    pub fn read(&mut self, dest: &mut [u8]) -> (copied: Result<usize, ApiFailure>)
        ensures
            read_fits(old(self)@, old(dest)@.len()) ==> (copied.is_ok()
                && copied.unwrap() == read_count(old(self)@)
                && final(self)@.is_none()
                && final(dest)@ == read_dest(old(self)@, old(dest)@)),
            !read_fits(old(self)@, old(dest)@.len()) ==> (copied == Err::<usize, ApiFailure>(
                ApiFailure::BufferSizeMismatch,
            )
                && final(self)@ == old(self)@
                && final(dest)@ == old(dest)@),
    {
        let pending = match &self.slot {
            None => {
                return Ok(0);
            },
            Some(bytes) => bytes.len(),
        };
        if pending > dest.len() {
            return Err(ApiFailure::BufferSizeMismatch);
        }
        match self.slot.take() {
            Some(bytes) => {
                copy_into(dest, bytes.as_slice());
                Ok(bytes.len())
            },
            None => Ok(0),
        }
    }
}

} // verus!
