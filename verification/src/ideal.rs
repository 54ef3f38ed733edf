//! A store that keeps its word: the model against which the laws of the
//! repositories are stated.
//!
//! The real store is reached by the caller and may fail or change between two
//! commands. The model says what a store does that does neither: it maps keys
//! to values, a value being a record or something undecodable.

use crate::store::{key_of, scan_pattern_of, Fetched, StoreCommand, StoreReply};
use vstd::prelude::*;

verus! {

/// What an ideal store holds: under each key a record, or `None` for a value
/// that is no record of the expected kind.
pub type Contents<T> = Map<Seq<char>, Option<T>>;

/// What a reader finds under `key`.
pub open spec fn held<T>(contents: Contents<T>, key: Seq<char>) -> Fetched<T> {
    if contents.dom().contains(key) {
        match contents[key] {
            Some(record) => Fetched::Record(record),
            None => Fetched::Undecodable,
        }
    } else {
        Fetched::Absent
    }
}

/// What the store holds after `command`.
pub open spec fn after<T>(contents: Contents<T>, command: StoreCommand<T>) -> Contents<T> {
    match command {
        StoreCommand::Write { key, record } => contents.insert(key@, Some(record)),
        StoreCommand::Remove { key } => contents.remove(key@),
        _ => contents,
    }
}

/// `c` has a meaning of its own in a key pattern.
pub open spec fn is_pattern_char(c: char) -> bool {
    c == '*' || c == '?' || c == '[' || c == '\\'
}

/// `prefix` stands only for itself in a key pattern.
pub open spec fn is_plain(prefix: Seq<char>) -> bool {
    forall|i: int| 0 <= i < prefix.len() ==> !is_pattern_char(#[trigger] prefix[i])
}

/// `key` lies in the namespace `prefix`.
pub open spec fn in_namespace(prefix: Seq<char>, key: Seq<char>) -> bool {
    prefix.is_prefix_of(key)
}

/// `keys` are the keys that the store holds in the namespace `prefix`, each
/// once, in any order.
pub open spec fn lists_namespace<T>(contents: Contents<T>, prefix: Seq<char>, keys: Seq<String>) -> bool {
    &&& forall|i: int, j: int|
        #![trigger keys[i], keys[j]]
        0 <= i < j < keys.len() ==> keys[i]@ != keys[j]@
    &&& forall|i: int|
        0 <= i < keys.len() ==> contents.dom().contains((#[trigger] keys[i])@) && in_namespace(
            prefix,
            keys[i]@,
        )
    &&& forall|k: Seq<char>|
        #![trigger contents.dom().contains(k)]
        contents.dom().contains(k) && in_namespace(prefix, k) ==> exists|i: int|
            0 <= i < keys.len() && (#[trigger] keys[i])@ == k
}

/// `reply` is the ideal store's reply to `command`. Of a listing the model
/// speaks only where the pattern is a plain prefix followed by `*`.
pub open spec fn answers<T>(contents: Contents<T>, command: StoreCommand<T>, reply: StoreReply<T>) -> bool {
    match command {
        StoreCommand::Read { key } => reply == StoreReply::Value(held(contents, key@)),
        StoreCommand::Write { key, record } => reply == StoreReply::<T>::Done,
        StoreCommand::Remove { key } => reply == StoreReply::<T>::Done,
        StoreCommand::Scan { pattern } => {
            &&& reply matches StoreReply::Keys(keys)
            &&& forall|prefix: Seq<char>|
                #![trigger scan_pattern_of(prefix)]
                pattern@ == scan_pattern_of(prefix) && is_plain(prefix) ==> lists_namespace(
                    contents,
                    prefix,
                    keys@,
                )
        },
        StoreCommand::ReadMany { keys } => {
            &&& reply matches StoreReply::Values(values)
            &&& values@.len() == keys@.len()
            &&& forall|i: int|
                0 <= i < keys@.len() ==> #[trigger] values@[i] == held(contents, keys@[i]@)
        },
    }
}

/// Two keys of one namespace are the same only for the same identifier.
pub proof fn lemma_key_of_injective(prefix: Seq<char>, a: Seq<char>, b: Seq<char>)
    ensures
        (key_of(prefix, a) == key_of(prefix, b)) == (a == b),
        in_namespace(prefix, key_of(prefix, a)),
{
    let ka = key_of(prefix, a);
    let kb = key_of(prefix, b);
    assert(ka.skip(prefix.len() as int) =~= a);
    assert(kb.skip(prefix.len() as int) =~= b);
    assert(ka.subrange(0, prefix.len() as int) =~= prefix);
}

} // verus!
