//! Laws that hold across the operations of the host, stated over the models
//! that the contracts of those operations use.

use crate::assoc::{
    bound, lemma_lookup_put, lemma_lookup_unbind, lemma_put_unique, lookup, put, unbind,
    unique_keys,
};
use crate::host::{arg_copy_status, named_arg, size_query_status, HostView};
use crate::host_buffer::{filled, read_count, read_dest, read_fits};
use crate::status::{failure_code, ApiFailure, Fault, STATUS_OK};
use crate::storage::added;
use crate::uref::uref_key_encoding;
use crate::value::{mergeable, merged, ValueView};
use vstd::prelude::*;

verus! {

/// The directory after the names of `puts` were put, one after the other.
pub open spec fn after_puts(
    directory: Seq<(Seq<char>, Seq<u8>)>,
    puts: Seq<(Seq<char>, Seq<u8>)>,
) -> Seq<(Seq<char>, Seq<u8>)>
    decreases puts.len(),
{
    if puts.len() == 0 {
        directory
    } else {
        put(after_puts(directory, puts.drop_last()), puts.last().0, puts.last().1)
    }
}

/// A name that was never put is not in the directory: the empty directory
/// holds no name, and putting other names does not bring a name in.
pub proof fn law_name_not_put_is_absent(puts: Seq<(Seq<char>, Seq<u8>)>, name: Seq<char>)
    requires
        forall|i: int| 0 <= i < puts.len() ==> puts[i].0 != name,
    ensures
        !bound(after_puts(Seq::empty(), puts), name),
        lookup(after_puts(Seq::empty(), puts), name).is_none(),
    decreases puts.len(),
{
    if puts.len() > 0 {
        law_name_not_put_is_absent(puts.drop_last(), name);
        lemma_lookup_put(
            after_puts(Seq::empty(), puts.drop_last()),
            puts.last().0,
            puts.last().1,
            name,
        );
    }
}

/// After a name is put, the directory holds it and it stands for the key
/// that was put; after it is then removed, the directory holds it no longer.
pub proof fn law_put_then_get_then_remove(
    directory: Seq<(Seq<char>, Seq<u8>)>,
    name: Seq<char>,
    key: Seq<u8>,
)
    requires
        unique_keys(directory),
    ensures
        bound(put(directory, name, key), name),
        lookup(put(directory, name, key), name) == Some(key),
        !bound(unbind(put(directory, name, key), name), name),
{
    lemma_lookup_put(directory, name, key, name);
    lemma_put_unique(directory, name, key);
    lemma_lookup_unbind(put(directory, name, key), name, name);
}

/// Putting or removing one name leaves what every other name stands for.
pub proof fn law_other_names_untouched(
    directory: Seq<(Seq<char>, Seq<u8>)>,
    name: Seq<char>,
    key: Seq<u8>,
    other: Seq<char>,
)
    requires
        unique_keys(directory),
        other != name,
    ensures
        lookup(put(directory, name, key), other) == lookup(directory, other),
        lookup(unbind(directory, name), other) == lookup(directory, other),
{
    lemma_lookup_put(directory, name, key, other);
    lemma_lookup_unbind(directory, name, other);
}

/// References to different addresses have different keys, so that the value
/// of the one is not lost when the other is made.
pub proof fn law_distinct_addresses_distinct_keys(first: Seq<u8>, second: Seq<u8>, rights: u8)
    requires
        first.len() == second.len(),
        first != second,
    ensures
        uref_key_encoding(first, rights) != uref_key_encoding(second, rights),
{
    let a = uref_key_encoding(first, rights);
    let b = uref_key_encoding(second, rights);
    if a == b {
        assert forall|i: int| 0 <= i < first.len() implies first[i] == second[i] by {
            assert(b[i + 1] == second[i]);
        }
        assert(first =~= second);
    }
}

/// Adding a value that cannot be merged into what the store holds under the
/// key is refused, and adding any other value is not: it leaves the merged
/// value, or the value itself where the store held nothing under the key,
/// and what is under other keys stays.
pub proof fn law_add_merges_or_refuses(
    store: Map<Seq<u8>, ValueView>,
    key: Seq<u8>,
    value: ValueView,
    other: Seq<u8>,
)
    requires
        other != key,
    ensures
        added(store, key, value).is_none() == (store.contains_key(key) && !mergeable(
            store[key],
            value,
        )),
        added(store, key, value).is_some() ==> ({
            let after = added(store, key, value).unwrap();
            &&& after.contains_key(key)
            &&& after[key] == if store.contains_key(key) {
                merged(store[key], value)
            } else {
                value
            }
            &&& after.contains_key(other) == store.contains_key(other)
            &&& store.contains_key(other) ==> after[other] == store[other]
        }),
{
}

/// Where the size query for an argument succeeds, the copy into a
/// destination of the size that it told succeeds too; a bound argument that
/// is not too long has a size query that succeeds; and a copy into a
/// destination of another size is refused.
pub proof fn law_size_then_copy(view: HostView, name: Seq<char>, dest_len: nat)
    ensures
        size_query_status(view, name) == Ok::<i32, Fault>(STATUS_OK) ==> arg_copy_status(
            view,
            name,
            named_arg(view, name).unwrap().bytes.len(),
        ) == Ok::<i32, Fault>(STATUS_OK),
        named_arg(view, name).is_some() ==> size_query_status(view, name) == Ok::<i32, Fault>(
            STATUS_OK,
        ) || size_query_status(view, name) == Err::<i32, Fault>(Fault::ValueTooLarge),
        named_arg(view, name).is_some() && named_arg(view, name).unwrap().bytes.len() != dest_len
            ==> arg_copy_status(view, name, dest_len) == Ok::<i32, Fault>(
            failure_code(ApiFailure::BufferSizeMismatch),
        ),
{
}

/// Where no arguments are established, or where the arguments hold no such
/// name, neither the size query nor the copy succeeds.
pub proof fn law_missing_argument_is_signalled(view: HostView, name: Seq<char>, dest_len: nat)
    requires
        named_arg(view, name).is_none(),
    ensures
        size_query_status(view, name) != Ok::<i32, Fault>(STATUS_OK),
        arg_copy_status(view, name, dest_len) != Ok::<i32, Fault>(STATUS_OK),
        view.args.is_none() ==> size_query_status(view, name) == Err::<i32, Fault>(
            Fault::ArgsNotEstablished,
        ) && arg_copy_status(view, name, dest_len) == Err::<i32, Fault>(Fault::ArgsNotEstablished),
{
}

/// What is written to the host buffer is read once: the first read, into a
/// destination that is long enough, hands over exactly the bytes written and
/// empties the buffer; the read after it hands over nothing and leaves the
/// destination as it was.
pub proof fn law_host_buffer_read_once(written: Seq<u8>, dest: Seq<u8>)
    requires
        written.len() <= dest.len(),
    ensures
        read_fits(Some(written), dest.len()),
        read_count(Some(written)) == written.len(),
        read_dest(Some(written), dest).len() == dest.len(),
        read_dest(Some(written), dest).take(written.len() as int) == written,
        read_dest(Some(written), dest).skip(written.len() as int) == dest.skip(
            written.len() as int,
        ),
        read_fits(None, dest.len()),
        read_count(None) == 0,
        read_dest(None, read_dest(Some(written), dest)) == read_dest(Some(written), dest),
{
    let after = filled(dest, written);
}

} // verus!
