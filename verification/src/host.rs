//! The host context and the host functions that a contract calls on it.
//!
//! The context holds what the real host keeps for a contract: the arguments
//! of the invocation, the named-key directory, the global value store and the
//! host buffer. A harness owns one context and hands it to every call.
//!
//! A host function answers in one of three ways. It succeeds, with status
//! zero. It fails in a way that the contract can handle, with the status code
//! of an [`ApiFailure`]. Or it meets a defect of the contract or of the
//! harness, a [`Fault`], on which the harness is to halt the run.

use crate::args::RuntimeArgs;
use crate::assoc::{bound, lookup, put, unbind};
use crate::codec::{copy_into, decode_name, is_name_encoding, name_decoding};
use crate::host_buffer::{read_count, read_dest, read_fits, HostBuffer};
use crate::invocation::{args_established, step, transition, Event, Phase};
use crate::named_keys::NamedKeys;
use crate::status::{failure_code, status_code, ApiFailure, Fault, STATUS_OK};
use crate::storage::{added, random_address, GlobalStore};
use crate::uref::{
    spec_canonical_key, uref_encoding, uref_key_encoding, Key, URef, URefView,
    RIGHTS_READ_ADD_WRITE, UREF_SERIALIZED_LENGTH,
};
use crate::value::{is_value_encoding, unit_type, value_decoding, TypedValue, ValueView};
use vstd::prelude::*;

verus! {

/// The longest value whose length a size query reports.
pub const MAX_REPORTED_SIZE: usize = 0xffff_ffff;

/// What a context holds.
pub struct HostView {
    /// Where the current invocation stands.
    pub phase: Phase,
    /// The arguments of the invocation, while they are established.
    pub args: Option<Seq<(Seq<char>, ValueView)>>,
    /// The named keys, in the order in which the names came.
    pub named_keys: Seq<(Seq<char>, Seq<u8>)>,
    /// The values of the global store by key.
    pub store: Map<Seq<u8>, ValueView>,
    /// What is pending in the host buffer.
    pub host_buffer: Option<Seq<u8>>,
}

/// The reason and the fact of a revert: the invocation is aborted with this
/// status.
#[derive(Clone, Copy, Debug, PartialEq, Eq, Structural)]
pub struct Abort {
    pub status: i32,
}

/// The argument called `name`, where the arguments are established and hold
/// one.
pub open spec fn named_arg(view: HostView, name: Seq<char>) -> Option<ValueView> {
    match view.args {
        Some(args) => lookup(args, name),
        None => None,
    }
}

/// How the size query for the argument called `name` ends.
pub open spec fn size_query_status(view: HostView, name: Seq<char>) -> Result<i32, Fault> {
    if view.args.is_none() {
        Err(Fault::ArgsNotEstablished)
    } else if named_arg(view, name).is_none() {
        Ok(failure_code(ApiFailure::MissingArgument))
    } else if named_arg(view, name).unwrap().bytes.len() > MAX_REPORTED_SIZE {
        Err(Fault::ValueTooLarge)
    } else {
        Ok(STATUS_OK)
    }
}

/// How the copy of the argument called `name` into a destination of
/// `dest_len` bytes ends.
pub open spec fn arg_copy_status(
    view: HostView,
    name: Seq<char>,
    dest_len: nat,
) -> Result<i32, Fault> {
    if view.args.is_none() {
        Err(Fault::ArgsNotEstablished)
    } else if named_arg(view, name).is_none() {
        Ok(failure_code(ApiFailure::MissingArgument))
    } else if named_arg(view, name).unwrap().bytes.len() != dest_len {
        Ok(failure_code(ApiFailure::BufferSizeMismatch))
    } else {
        Ok(STATUS_OK)
    }
}

/// The unit value.
pub open spec fn unit_value() -> ValueView {
    ValueView { cl_type: unit_type(), bytes: Seq::empty() }
}

/// The state of a native host.
pub struct HostContext {
    phase: Phase,
    args: Option<RuntimeArgs>,
    named_keys: NamedKeys,
    store: GlobalStore,
    host_buffer: HostBuffer,
}

impl View for HostContext {
    type V = HostView;

    closed spec fn view(&self) -> HostView {
        HostView {
            phase: self.phase,
            args: match self.args {
                Some(args) => Some(args@),
                None => None,
            },
            named_keys: self.named_keys@,
            store: self.store@,
            host_buffer: self.host_buffer@,
        }
    }
}

impl HostContext {
    /// Whether the context is well formed: its directory and its store are,
    /// and the arguments are there exactly while the invocation has them
    /// established.
    pub closed spec fn wf(&self) -> bool {
        &&& self.named_keys.wf()
        &&& self.store.wf()
        &&& self.args.is_some() == args_established(self.phase)
    }

    /// In a well-formed context the arguments are there exactly while the
    /// phase has them established.
    pub proof fn lemma_args_follow_phase(&self)
        requires
            self.wf(),
        ensures
            self@.args.is_some() == args_established(self@.phase),
    {
    }

    /// A context with nothing in it and no invocation begun.
    pub fn new() -> (host: HostContext)
        ensures
            host.wf(),
            host@ == (HostView {
                phase: Phase::NoArgsEstablished,
                args: None,
                named_keys: Seq::empty(),
                store: Map::empty(),
                host_buffer: None,
            }),
    {
        HostContext {
            phase: Phase::NoArgsEstablished,
            args: None,
            named_keys: NamedKeys::new(),
            store: GlobalStore::new(),
            host_buffer: HostBuffer::new(),
        }
    }

    /// Where the current invocation stands.
    pub fn phase(&self) -> (phase: Phase)
        ensures
            phase == self@.phase,
    {
        self.phase
    }

    /// The named-key directory.
    pub fn named_keys(&self) -> (directory: &NamedKeys)
        ensures
            directory@ == self@.named_keys,
    {
        &self.named_keys
    }

    /// The global value store.
    pub fn store(&self) -> (store: &GlobalStore)
        ensures
            store@ == self@.store,
    {
        &self.store
    }

    /// The host buffer.
    pub fn host_buffer(&self) -> (buffer: &HostBuffer)
        ensures
            buffer@ == self@.host_buffer,
    {
        &self.host_buffer
    }

    /// Installs the arguments of an invocation. This is in order where no
    /// arguments are established and the invocation has not begun; else
    /// nothing changes and the answer is `false`.
    pub fn bind_args(&mut self, args: RuntimeArgs) -> (bound: bool)
        requires
            old(self).wf(),
        ensures
            final(self).wf(),
            bound == transition(old(self)@.phase, Event::BindArgs).is_some(),
            bound ==> final(self)@ == (HostView {
                phase: Phase::ArgsBound,
                args: Some(args@),
                ..old(self)@
            }),
            !bound ==> final(self)@ == old(self)@,
    {
        match step(self.phase, Event::BindArgs) {
            Some(next) => {
                self.phase = next;
                self.args = Some(args);
                true
            },
            None => false,
        }
    }

    /// Starts the contract. This is in order where the arguments are bound
    /// and the contract has not started; else nothing changes and the answer
    /// is `false`.
    pub fn start(&mut self) -> (started: bool)
        requires
            old(self).wf(),
        ensures
            final(self).wf(),
            started == transition(old(self)@.phase, Event::Start).is_some(),
            started ==> final(self)@ == (HostView { phase: Phase::Executing, ..old(self)@ }),
            !started ==> final(self)@ == old(self)@,
    {
        match step(self.phase, Event::Start) {
            Some(next) => {
                self.phase = next;
                true
            },
            None => false,
        }
    }

    /// Ends the invocation of a contract that ran to its end: the arguments
    /// are discarded, and what the contract did to the directory, to the
    /// store and to the host buffer stays. This is in order while the
    /// contract runs; else nothing changes and the answer is `false`.
    pub fn complete(&mut self) -> (completed: bool)
        requires
            old(self).wf(),
        ensures
            final(self).wf(),
            completed == transition(old(self)@.phase, Event::Complete).is_some(),
            completed ==> final(self)@ == (HostView {
                phase: Phase::Completed,
                args: None,
                ..old(self)@
            }),
            !completed ==> final(self)@ == old(self)@,
    {
        match step(self.phase, Event::Complete) {
            Some(next) => {
                self.phase = next;
                self.args = None;
                true
            },
            None => false,
        }
    }

    /// Makes the context ready for the next invocation: no arguments, an
    /// empty host buffer. The directory and the store stay.
    pub fn reset_invocation(&mut self)
        requires
            old(self).wf(),
        ensures
            final(self).wf(),
            final(self)@ == (HostView {
                phase: Phase::NoArgsEstablished,
                args: None,
                host_buffer: None,
                ..old(self)@
            }),
    {
        self.phase = Phase::NoArgsEstablished;
        self.args = None;
        self.host_buffer.clear();
    }

    /// Empties the directory and the store. The invocation and the host
    /// buffer stay.
    pub fn reset_state(&mut self)
        requires
            old(self).wf(),
        ensures
            final(self).wf(),
            final(self)@ == (HostView {
                named_keys: Seq::empty(),
                store: Map::empty(),
                ..old(self)@
            }),
    {
        self.named_keys = NamedKeys::new();
        self.store = GlobalStore::new();
    }

    /// Whether the directory holds `name`.
    pub fn has_key(&self, name: &str) -> (held: bool)
        ensures
            held == bound(self@.named_keys, name@),
    {
        self.named_keys.has(name)
    }

    /// The key that `name` stands for; `MissingKey` where the directory does
    /// not hold the name.
    pub fn get_key(&self, name: &str) -> (key: Result<&Key, ApiFailure>)
        ensures
            bound(self@.named_keys, name@) ==> key.is_ok() && Some(key.unwrap()@) == lookup(
                self@.named_keys,
                name@,
            ),
            !bound(self@.named_keys, name@) ==> key == Err::<&Key, ApiFailure>(
                ApiFailure::MissingKey,
            ),
    {
        self.named_keys.get(name)
    }

    /// Makes `name` stand for `key` in the directory.
    pub fn put_key(&mut self, name: String, key: Key)
        requires
            old(self).wf(),
        ensures
            final(self).wf(),
            final(self)@ == (HostView {
                named_keys: put(old(self)@.named_keys, name@, key@),
                ..old(self)@
            }),
    {
        self.named_keys.put(name, key);
    }

    /// Takes `name` out of the directory. What the store holds under its key
    /// stays.
    pub fn remove_key(&mut self, name: &str)
        requires
            old(self).wf(),
        ensures
            final(self).wf(),
            final(self)@ == (HostView {
                named_keys: unbind(old(self)@.named_keys, name@),
                ..old(self)@
            }),
    {
        self.named_keys.remove(name);
    }

    /// The value that the store holds under `key`; `ValueNotFound` where it
    /// holds none.
    pub fn read(&self, key: &Key) -> (value: Result<&TypedValue, ApiFailure>)
        ensures
            self@.store.contains_key(key@) ==> value.is_ok() && value.unwrap()@
                == self@.store[key@],
            !self@.store.contains_key(key@) ==> value == Err::<&TypedValue, ApiFailure>(
                ApiFailure::ValueNotFound,
            ),
    {
        self.store.read(key)
    }

    /// Puts `value` under `key` in the store.
    pub fn write(&mut self, key: Key, value: TypedValue)
        requires
            old(self).wf(),
        ensures
            final(self).wf(),
            final(self)@ == (HostView {
                store: old(self)@.store.insert(key@, value@),
                ..old(self)@
            }),
    {
        self.store.write(key, value);
    }

    /// Merges `value` into what the store holds under `key`, or puts it
    /// there where the store holds nothing under the key. Where the two
    /// cannot be merged, the failure is `TypeMismatch` and nothing changes.
    pub fn add(&mut self, key: Key, value: TypedValue) -> (outcome: Result<(), ApiFailure>)
        requires
            old(self).wf(),
        ensures
            final(self).wf(),
            added(old(self)@.store, key@, value@).is_some() ==> (outcome.is_ok()
                && final(self)@ == (HostView {
                store: added(old(self)@.store, key@, value@).unwrap(),
                ..old(self)@
            })),
            added(old(self)@.store, key@, value@).is_none() ==> (outcome == Err::<(), ApiFailure>(
                ApiFailure::TypeMismatch,
            )
                && final(self)@ == old(self)@),
    {
        self.store.add(key, value)
    }

    /// Puts `bytes` into the host buffer, in place of what was pending.
    pub fn write_host_buffer(&mut self, bytes: Vec<u8>)
        requires
            old(self).wf(),
        ensures
            final(self).wf(),
            final(self)@ == (HostView { host_buffer: Some(bytes@), ..old(self)@ }),
    {
        self.host_buffer.write(bytes);
    }

    /// Host function: the size of the argument called `name`.
    ///
    /// With status zero, `dest_size` is the number of bytes of the argument.
    /// Where the arguments hold no such name, the status is that of
    /// `MissingArgument`. Where no arguments are established, or where the
    /// argument is too long for its size to be told in 32 bits, the call is
    /// a fault. In all these cases `dest_size` is as it was.
    pub fn casper_get_named_arg_size(
        &self,
        name: &str,
        dest_size: &mut usize,
    ) -> (status: Result<i32, Fault>)
        ensures
            status == size_query_status(self@, name@),
            status == Ok::<i32, Fault>(STATUS_OK) ==> *final(dest_size) == named_arg(
                self@,
                name@,
            ).unwrap().bytes.len(),
            status != Ok::<i32, Fault>(STATUS_OK) ==> *final(dest_size) == *old(dest_size),
    {
        let args = match &self.args {
            None => {
                return Err(Fault::ArgsNotEstablished);
            },
            Some(args) => args,
        };
        match args.get(name) {
            None => Ok(status_code(Err(ApiFailure::MissingArgument))),
            Some(value) => {
                let size = value.inner_bytes().len();
                if size > MAX_REPORTED_SIZE {
                    return Err(Fault::ValueTooLarge);
                }
                *dest_size = size;
                Ok(status_code(Ok(())))
            },
        }
    }

    /// Host function: the bytes of the argument called `name`.
    ///
    /// With status zero, `dest` holds the bytes of the argument. `dest` must
    /// be as long as the argument, as its size query told; else the status
    /// is that of `BufferSizeMismatch`. Where the arguments hold no such
    /// name, the status is that of `MissingArgument`. Where no arguments are
    /// established, the call is a fault. In all these cases `dest` is as it
    /// was.
    pub fn casper_get_named_arg(&self, name: &str, dest: &mut [u8]) -> (status: Result<i32, Fault>)
        ensures
            status == arg_copy_status(self@, name@, old(dest)@.len()),
            status == Ok::<i32, Fault>(STATUS_OK) ==> final(dest)@ == named_arg(
                self@,
                name@,
            ).unwrap().bytes,
            status != Ok::<i32, Fault>(STATUS_OK) ==> final(dest)@ == old(dest)@,
    {
        let args = match &self.args {
            None => {
                return Err(Fault::ArgsNotEstablished);
            },
            Some(args) => args,
        };
        match args.get(name) {
            None => Ok(status_code(Err(ApiFailure::MissingArgument))),
            Some(value) => {
                let bytes = value.inner_bytes();
                if bytes.len() != dest.len() {
                    return Ok(status_code(Err(ApiFailure::BufferSizeMismatch)));
                }
                copy_into(dest, bytes);
                Ok(status_code(Ok(())))
            },
        }
    }

    /// Host function: whether the directory holds the name that `name_bytes`
    /// encodes.
    ///
    /// The status is zero where it does, and that of `MissingKey` where it
    /// does not. Bytes that encode no name are a fault.
    pub fn casper_has_key(&self, name_bytes: &[u8]) -> (status: Result<i32, Fault>)
        ensures
            !is_name_encoding(name_bytes@) ==> status == Err::<i32, Fault>(Fault::InvalidName),
            is_name_encoding(name_bytes@) && bound(self@.named_keys, name_decoding(name_bytes@))
                ==> status == Ok::<i32, Fault>(STATUS_OK),
            is_name_encoding(name_bytes@) && !bound(self@.named_keys, name_decoding(name_bytes@))
                ==> status == Ok::<i32, Fault>(failure_code(ApiFailure::MissingKey)),
    {
        let name = match decode_name(name_bytes) {
            None => {
                return Err(Fault::InvalidName);
            },
            Some(name) => name,
        };
        let outcome = match self.named_keys.get(name.as_str()) {
            Ok(_) => Ok(()),
            Err(failure) => Err(failure),
        };
        Ok(status_code(outcome))
    }

    /// Host function: makes the name that `name_bytes` encodes stand for the
    /// key that `key_bytes` encodes.
    ///
    /// Bytes that encode no name, and then bytes that encode no key, are a
    /// fault that leaves the context as it was.
    pub fn casper_put_key(
        &mut self,
        name_bytes: &[u8],
        key_bytes: &[u8],
    ) -> (outcome: Result<(), Fault>)
        requires
            old(self).wf(),
        ensures
            final(self).wf(),
            !is_name_encoding(name_bytes@) ==> (outcome == Err::<(), Fault>(Fault::InvalidName)
                && final(self)@ == old(self)@),
            is_name_encoding(name_bytes@) && spec_canonical_key(key_bytes@).is_none() ==> (outcome
                == Err::<(), Fault>(Fault::InvalidKey) && final(self)@ == old(self)@),
            is_name_encoding(name_bytes@) && spec_canonical_key(key_bytes@).is_some() ==> (
            outcome.is_ok() && final(self)@ == (HostView {
                named_keys: put(
                    old(self)@.named_keys,
                    name_decoding(name_bytes@),
                    spec_canonical_key(key_bytes@).unwrap(),
                ),
                ..old(self)@
            })),
    {
        let name = match decode_name(name_bytes) {
            None => {
                return Err(Fault::InvalidName);
            },
            Some(name) => name,
        };
        let key = match Key::from_bytes(key_bytes) {
            None => {
                return Err(Fault::InvalidKey);
            },
            Some(key) => key,
        };
        self.named_keys.put(name, key);
        Ok(())
    }

    /// Puts `value` into the store under the key of a new reference to an
    /// address drawn at random, and gives the reference, which has the
    /// rights to read, to add and to write.
    pub fn runtime_new_uref(&mut self, value: TypedValue) -> (uref: URef)
        requires
            old(self).wf(),
        ensures
            final(self).wf(),
            uref@.rights == RIGHTS_READ_ADD_WRITE,
            uref@.addr.len() == 32,
            final(self)@ == (HostView {
                store: old(self)@.store.insert(
                    uref_key_encoding(uref@.addr, RIGHTS_READ_ADD_WRITE),
                    value@,
                ),
                ..old(self)@
            }),
    {
        self.store.new_reference(value)
    }

    /// Puts the value that `value_bytes` encodes into the store under the key
    /// of a new reference to `addr`, and gives the reference.
    ///
    /// Bytes that encode no typed value are a fault that leaves the context
    /// as it was.
    pub fn new_uref_at(&mut self, addr: [u8; 32], value_bytes: &[u8]) -> (uref: Result<URef, Fault>)
        requires
            old(self).wf(),
        ensures
            final(self).wf(),
            !is_value_encoding(value_bytes@) ==> (uref == Err::<URef, Fault>(Fault::InvalidValue)
                && final(self)@ == old(self)@),
            is_value_encoding(value_bytes@) ==> (uref.is_ok() && uref.unwrap()@ == (URefView {
                addr: addr@,
                rights: RIGHTS_READ_ADD_WRITE,
            }) && final(self)@ == (HostView {
                store: old(self)@.store.insert(
                    uref_key_encoding(addr@, RIGHTS_READ_ADD_WRITE),
                    value_decoding(value_bytes@),
                ),
                ..old(self)@
            })),
    {
        match TypedValue::from_bytes(value_bytes) {
            None => Err(Fault::InvalidValue),
            Some(value) => Ok(self.store.new_reference_at(addr, value)),
        }
    }

    /// Host function: puts the value that `value_bytes` encodes into the
    /// store under the key of a new reference to an address drawn at random,
    /// and gives the reference.
    ///
    /// Bytes that encode no typed value are a fault that leaves the context
    /// as it was.
    pub fn casper_new_uref(&mut self, value_bytes: &[u8]) -> (uref: Result<URef, Fault>)
        requires
            old(self).wf(),
        ensures
            final(self).wf(),
            !is_value_encoding(value_bytes@) ==> (uref == Err::<URef, Fault>(Fault::InvalidValue)
                && final(self)@ == old(self)@),
            is_value_encoding(value_bytes@) ==> (uref.is_ok() && uref.unwrap()@.rights
                == RIGHTS_READ_ADD_WRITE && uref.unwrap()@.addr.len() == 32 && final(self)@
                == (HostView {
                store: old(self)@.store.insert(
                    uref_key_encoding(uref.unwrap()@.addr, RIGHTS_READ_ADD_WRITE),
                    value_decoding(value_bytes@),
                ),
                ..old(self)@
            })),
    {
        match TypedValue::from_bytes(value_bytes) {
            None => Err(Fault::InvalidValue),
            Some(value) => Ok(self.runtime_new_uref(value)),
        }
    }

    /// Host function: hands over what is pending in the host buffer.
    ///
    /// With status zero, what was pending is at the start of `dest`, its
    /// length is in `bytes_written`, and the host buffer is empty; where
    /// nothing was pending, `bytes_written` is zero and `dest` is as it was.
    /// Where `dest` is shorter than what is pending, the status is that of
    /// `BufferSizeMismatch` and nothing changes.
    pub fn casper_read_host_buffer(
        &mut self,
        dest: &mut [u8],
        bytes_written: &mut usize,
    ) -> (status: i32)
        requires
            old(self).wf(),
        ensures
            final(self).wf(),
            read_fits(old(self)@.host_buffer, old(dest)@.len()) ==> (status == STATUS_OK
                && *final(bytes_written) == read_count(old(self)@.host_buffer)
                && final(dest)@ == read_dest(old(self)@.host_buffer, old(dest)@)
                && final(self)@ == (HostView { host_buffer: None, ..old(self)@ })),
            !read_fits(old(self)@.host_buffer, old(dest)@.len()) ==> (status == failure_code(
                ApiFailure::BufferSizeMismatch,
            )
                && *final(bytes_written) == *old(bytes_written)
                && final(dest)@ == old(dest)@
                && final(self)@ == old(self)@),
    {
        match self.host_buffer.read(dest) {
            Ok(copied) => {
                *bytes_written = copied;
                status_code(Ok(()))
            },
            Err(failure) => status_code(Err(failure)),
        }
    }

    /// Makes a dictionary at `addr`: puts the unit value into the store under
    /// the key of a new reference to `addr`, leaves the encoding of the
    /// reference in the host buffer and its length in `output_size`.
    pub fn new_dictionary_at(&mut self, addr: [u8; 32], output_size: &mut usize) -> (status: i32)
        requires
            old(self).wf(),
        ensures
            final(self).wf(),
            status == STATUS_OK,
            *final(output_size) == UREF_SERIALIZED_LENGTH,
            final(self)@ == (HostView {
                store: old(self)@.store.insert(
                    uref_key_encoding(addr@, RIGHTS_READ_ADD_WRITE),
                    unit_value(),
                ),
                host_buffer: Some(uref_encoding(addr@, RIGHTS_READ_ADD_WRITE)),
                ..old(self)@
            }),
    {
        let uref = self.store.new_reference_at(addr, TypedValue::unit());
        let encoded = uref.to_bytes();
        *output_size = encoded.len();
        self.host_buffer.write(encoded);
        status_code(Ok(()))
    }

    /// Host function: makes a dictionary at an address drawn at random: puts
    /// the unit value into the store under the key of a new reference,
    /// leaves the encoding of the reference in the host buffer and its
    /// length in `output_size`.
    pub fn casper_new_dictionary(&mut self, output_size: &mut usize) -> (status: i32)
        requires
            old(self).wf(),
        ensures
            final(self).wf(),
            status == STATUS_OK,
            *final(output_size) == UREF_SERIALIZED_LENGTH,
            final(self)@.host_buffer.is_some(),
            final(self)@.host_buffer.unwrap().len() == UREF_SERIALIZED_LENGTH,
            final(self)@.host_buffer.unwrap()[32] == RIGHTS_READ_ADD_WRITE,
            final(self)@ == (HostView {
                store: old(self)@.store.insert(
                    seq![2u8] + final(self)@.host_buffer.unwrap(),
                    unit_value(),
                ),
                host_buffer: final(self)@.host_buffer,
                ..old(self)@
            }),
    {
        let addr = random_address();
        self.new_dictionary_at(addr, output_size)
    }

    /// Host function: the contract reverts with `status`.
    ///
    /// The answer is the abort that the harness is to carry out. An invocation
    /// that was executing is then reverted and its arguments are discarded;
    /// what the contract did to the directory, to the store and to the host
    /// buffer stays. Outside an executing invocation the context is as it was.
    pub fn casper_revert(&mut self, status: i32) -> (abort: Abort)
        requires
            old(self).wf(),
            status != STATUS_OK,
        ensures
            final(self).wf(),
            abort.status == status,
            transition(old(self)@.phase, Event::Revert).is_some() ==> final(self)@ == (HostView {
                phase: Phase::Reverted,
                args: None,
                ..old(self)@
            }),
            transition(old(self)@.phase, Event::Revert).is_none() ==> final(self)@ == old(self)@,
    {
        match step(self.phase, Event::Revert) {
            Some(next) => {
                self.phase = next;
                self.args = None;
            },
            None => {},
        }
        Abort { status }
    }
}

} // verus!
