//! What a repository exchanges with the key-value store, and the steps that
//! every kind of record shares.
//!
//! The library performs no input or output. An operation is a function from
//! the store's last reply to the next step: a command that the caller has to
//! carry out, or the operation's result. The caller starts with no reply and
//! calls again with each reply until the step is a result.

use crate::order::{is_stable_sort_of, sort_naturally, NaturalOrder};
use crate::text::join2;
use vstd::prelude::*;

verus! {

/// Why an operation on the store failed.
#[derive(Debug, Clone, Copy, PartialEq, Eq, Structural)]
pub enum StoreError {
    /// The store could not be reached, or refused the command.
    Connectivity,
    /// A stored value is no record of the expected kind.
    Decode,
    /// A record could not be written out for the store.
    Encode,
    /// The reply is none that the command in flight can have.
    UnexpectedReply,
}

/// What the store holds under one key, as far as the reader can tell.
#[derive(Debug, PartialEq)]
pub enum Fetched<T> {
    /// Nothing is stored under the key.
    Absent,
    /// Something is stored that is no record of the expected kind.
    Undecodable,
    /// The record stored under the key.
    Record(T),
}

/// A command for the store.
#[derive(Debug, PartialEq)]
pub enum StoreCommand<T> {
    /// Read the value at `key`.
    Read { key: String },
    /// Write `record` at `key`, whatever was there.
    Write { key: String, record: T },
    /// Remove `key`, if it is there.
    Remove { key: String },
    /// List the keys that match `pattern`.
    Scan { pattern: String },
    /// Read the values at `keys`, in this order.
    ReadMany { keys: Vec<String> },
}

/// The store's reply to a command.
#[derive(Debug, PartialEq)]
pub enum StoreReply<T> {
    /// To `Read`: what is at the key.
    Value(Fetched<T>),
    /// To `Write` and `Remove`: it is done.
    Done,
    /// To `Scan`: the matching keys, in no particular order.
    Keys(Vec<String>),
    /// To `ReadMany`: what is at each key, in the order of the keys.
    Values(Vec<Fetched<T>>),
    /// To any command: it failed.
    Failed(StoreError),
}

/// What an operation asks of its caller next.
#[derive(Debug, PartialEq)]
pub enum Step<T, R> {
    /// Carry out this command and call again with the reply.
    Send(StoreCommand<T>),
    /// The operation is over, with this result.
    Finish(Result<R, StoreError>),
}

/// The records among `values`, in their order: what is absent or undecodable
/// is left out.
pub open spec fn records_of<T>(values: Seq<Fetched<T>>) -> Seq<T>
    decreases values.len(),
{
    if values.len() == 0 {
        Seq::empty()
    } else {
        match values.last() {
            Fetched::Record(r) => records_of(values.drop_last()).push(r),
            _ => records_of(values.drop_last()),
        }
    }
}

/// A record is among the records of `values` exactly if one of the values is
/// that record.
pub proof fn lemma_records_of_contains<T>(values: Seq<Fetched<T>>, x: T)
    ensures
        records_of(values).contains(x) <==> exists|i: int|
            0 <= i < values.len() && #[trigger] values[i] == Fetched::Record(x),
    decreases values.len(),
{
    let records = records_of(values);
    if values.len() > 0 {
        let front = values.drop_last();
        lemma_records_of_contains(front, x);
        if records.contains(x) {
            let j = choose|j: int| 0 <= j < records.len() && records[j] == x;
            if j < records_of(front).len() {
                assert(records_of(front)[j] == x);
                assert(records_of(front).contains(x));
                let i = choose|i: int| 0 <= i < front.len() && #[trigger] front[i] == Fetched::Record(x);
                assert(values[i] == Fetched::Record(x));
            } else {
                assert(values[values.len() - 1] == Fetched::Record(x));
            }
        }
        if exists|i: int| 0 <= i < values.len() && #[trigger] values[i] == Fetched::Record(x) {
            let i = choose|i: int| 0 <= i < values.len() && #[trigger] values[i] == Fetched::Record(x);
            if i < front.len() {
                assert(front[i] == Fetched::Record(x));
                assert(records_of(front).contains(x));
                let j = choose|j: int| 0 <= j < records_of(front).len() && records_of(front)[j] == x;
                assert(records[j] == x);
            } else {
                assert(records[records.len() - 1] == x);
            }
        }
    }
}

/// Where every value is a record, there are as many records as values.
pub proof fn lemma_records_of_all_records<T>(values: Seq<Fetched<T>>)
    requires
        forall|i: int| 0 <= i < values.len() ==> #[trigger] values[i] is Record,
    ensures
        records_of(values).len() == values.len(),
    decreases values.len(),
{
    if values.len() > 0 {
        let front = values.drop_last();
        assert(values[values.len() - 1] is Record);
        assert forall|i: int| 0 <= i < front.len() implies #[trigger] front[i] is Record by {
            assert(front[i] == values[i]);
        }
        lemma_records_of_all_records(front);
    }
}

/// Collects the records among `values`; see [`records_of`].
pub fn collect_records<T>(values: Vec<Fetched<T>>) -> (records: Vec<T>)
    ensures
        records@ == records_of(values@),
{
    let mut records: Vec<T> = Vec::new();
    let ghost all = values@;
    for value in it: values.into_iter()
        invariant
            it.seq() == all,
            records@ == records_of(all.take(it.index() as int)),
    {
        proof {
            let i = it.index() as int;
            assert(all.take(i + 1).drop_last() =~= all.take(i));
            assert(all.take(i + 1).last() == all[i]);
        }
        match value {
            Fetched::Record(r) => {
                records.push(r);
            },
            _ => {},
        }
    }
    proof {
        assert(all.take(all.len() as int) =~= all);
    }
    records
}

/// The key under which the record `id` is stored in the namespace `prefix`.
pub open spec fn key_of(prefix: Seq<char>, id: Seq<char>) -> Seq<char> {
    prefix + id
}

/// The pattern that lists the namespace `prefix`: the prefix and a `*`.
pub open spec fn scan_pattern_of(prefix: Seq<char>) -> Seq<char> {
    prefix.push('*')
}

/// The key of the record `id` in the namespace `prefix`.
pub fn record_key(prefix: &str, id: &str) -> (key: String)
    ensures
        key@ == key_of(prefix@, id@),
{
    join2(prefix, id)
}

/// The pattern that lists the namespace `prefix`.
pub fn scan_pattern(prefix: &str) -> (pattern: String)
    ensures
        pattern@ == scan_pattern_of(prefix@),
{
    proof {
        reveal_strlit("*");
    }
    let pattern = join2(prefix, "*");
    assert(pattern@ =~= scan_pattern_of(prefix@));
    pattern
}

/// The error that ends an operation on a reply it cannot use: the store's own
/// error where the command failed, and `UnexpectedReply` otherwise.
pub open spec fn refusal_of<T>(reply: StoreReply<T>) -> StoreError {
    match reply {
        StoreReply::Failed(e) => e,
        _ => StoreError::UnexpectedReply,
    }
}

/// Decides [`refusal_of`].
pub fn refusal<T>(reply: &StoreReply<T>) -> (e: StoreError)
    ensures
        e == refusal_of(*reply),
{
    match reply {
        StoreReply::Failed(e) => *e,
        _ => StoreError::UnexpectedReply,
    }
}

/// `step` is the step of reading the record `id` after `reply`: at first the
/// command to read its key; then the record, `None` where the key is absent,
/// and an error where the value is undecodable or the command failed.
pub open spec fn is_read_step<T>(
    prefix: Seq<char>,
    id: Seq<char>,
    reply: Option<StoreReply<T>>,
    step: Step<T, Option<T>>,
) -> bool {
    match reply {
        None => step matches Step::Send(StoreCommand::Read { key }) && key@ == key_of(prefix, id),
        Some(StoreReply::Value(Fetched::Record(r))) => step == Step::<T, Option<T>>::Finish(
            Ok(Some(r)),
        ),
        Some(StoreReply::Value(Fetched::Absent)) => step == Step::<T, Option<T>>::Finish(Ok(None)),
        Some(StoreReply::Value(Fetched::Undecodable)) => step == Step::<T, Option<T>>::Finish(
            Err(StoreError::Decode),
        ),
        Some(other) => step == Step::<T, Option<T>>::Finish(Err(refusal_of(other))),
    }
}

/// One step of reading the record `id`; see [`is_read_step`].
pub fn read_step<T>(prefix: &str, id: &str, reply: Option<StoreReply<T>>) -> (step: Step<
    T,
    Option<T>,
>)
    ensures
        is_read_step(prefix@, id@, reply, step),
{
    match reply {
        None => Step::Send(StoreCommand::Read { key: record_key(prefix, id) }),
        Some(StoreReply::Value(Fetched::Record(r))) => Step::Finish(Ok(Some(r))),
        Some(StoreReply::Value(Fetched::Absent)) => Step::Finish(Ok(None)),
        Some(StoreReply::Value(Fetched::Undecodable)) => Step::Finish(Err(StoreError::Decode)),
        Some(other) => Step::Finish(Err(refusal(&other))),
    }
}

/// `step` is the step of writing `record` under `id` after `reply`: at first
/// the command to write it at its key, whether or not the key exists; then
/// `true`, or the error of a command that failed.
pub open spec fn is_write_step<T>(
    prefix: Seq<char>,
    id: Seq<char>,
    record: T,
    reply: Option<StoreReply<T>>,
    step: Step<T, bool>,
) -> bool {
    match reply {
        None => step matches Step::Send(StoreCommand::Write { key, record: written }) && key@
            == key_of(prefix, id) && written == record,
        Some(StoreReply::Done) => step == Step::<T, bool>::Finish(Ok(true)),
        Some(other) => step == Step::<T, bool>::Finish(Err(refusal_of(other))),
    }
}

/// One step of writing `record` under `id`; see [`is_write_step`].
pub fn write_step<T>(prefix: &str, id: &str, record: T, reply: Option<StoreReply<T>>) -> (step:
    Step<T, bool>)
    ensures
        is_write_step(prefix@, id@, record, reply, step),
{
    match reply {
        None => Step::Send(StoreCommand::Write { key: record_key(prefix, id), record }),
        Some(StoreReply::Done) => Step::Finish(Ok(true)),
        Some(other) => Step::Finish(Err(refusal(&other))),
    }
}

/// `step` is the step of deleting the record `id` after `reply`: at first the
/// command to remove its key, whether or not it exists; then success, or the
/// error of a command that failed.
pub open spec fn is_remove_step<T>(
    prefix: Seq<char>,
    id: Seq<char>,
    reply: Option<StoreReply<T>>,
    step: Step<T, ()>,
) -> bool {
    match reply {
        None => step matches Step::Send(StoreCommand::Remove { key }) && key@ == key_of(prefix, id),
        Some(StoreReply::Done) => step == Step::<T, ()>::Finish(Ok(())),
        Some(other) => step == Step::<T, ()>::Finish(Err(refusal_of(other))),
    }
}

/// One step of deleting the record `id`; see [`is_remove_step`].
pub fn remove_step<T>(prefix: &str, id: &str, reply: Option<StoreReply<T>>) -> (step: Step<T, ()>)
    ensures
        is_remove_step(prefix@, id@, reply, step),
{
    match reply {
        None => Step::Send(StoreCommand::Remove { key: record_key(prefix, id) }),
        Some(StoreReply::Done) => Step::Finish(Ok(())),
        Some(other) => Step::Finish(Err(refusal(&other))),
    }
}

/// `step` is the step of listing the namespace `prefix` after `reply`: at
/// first the command to list its keys; after the keys, an empty result where
/// there are none, else the command to read them all at once; after the
/// values, the records among them in natural order, where values that are
/// absent or undecodable are left out and records of the same rank keep the
/// order of their keys.
pub open spec fn is_list_step<T: NaturalOrder>(
    prefix: Seq<char>,
    reply: Option<StoreReply<T>>,
    step: Step<T, Vec<T>>,
) -> bool {
    match reply {
        None => step matches Step::Send(StoreCommand::Scan { pattern }) && pattern@
            == scan_pattern_of(prefix),
        Some(StoreReply::Keys(keys)) => if keys@.len() == 0 {
            step matches Step::Finish(Ok(records)) && records@.len() == 0
        } else {
            step == Step::<T, Vec<T>>::Send(StoreCommand::ReadMany { keys })
        },
        Some(StoreReply::Values(values)) => step matches Step::Finish(Ok(records))
            && is_stable_sort_of(records@, records_of(values@)),
        Some(other) => step == Step::<T, Vec<T>>::Finish(Err(refusal_of(other))),
    }
}

/// One step of listing the namespace `prefix`; see [`is_list_step`].
pub fn list_step<T: NaturalOrder>(prefix: &str, reply: Option<StoreReply<T>>) -> (step: Step<
    T,
    Vec<T>,
>)
    ensures
        is_list_step(prefix@, reply, step),
{
    match reply {
        None => Step::Send(StoreCommand::Scan { pattern: scan_pattern(prefix) }),
        Some(StoreReply::Keys(keys)) => {
            if keys.len() == 0 {
                Step::Finish(Ok(Vec::new()))
            } else {
                Step::Send(StoreCommand::ReadMany { keys })
            }
        },
        Some(StoreReply::Values(values)) => Step::Finish(Ok(sort_naturally(collect_records(values)))),
        Some(other) => Step::Finish(Err(refusal(&other))),
    }
}

/// A record on its way into the store: the identifier it was given and the
/// command that writes it.
#[derive(Debug, PartialEq)]
pub struct Creation<T> {
    pub id: String,
    pub command: StoreCommand<T>,
}

/// The result of a creation under `id` after `reply`: the identifier where
/// the write is done, else the error.
pub open spec fn creation_result<T>(id: String, reply: StoreReply<T>) -> Result<String, StoreError> {
    match reply {
        StoreReply::Done => Ok(id),
        other => Err(refusal_of(other)),
    }
}

impl<T> Creation<T> {
    /// The creation of `record` under the fresh identifier `id` in the
    /// namespace `prefix`.
    pub fn new(prefix: &str, id: String, record: T) -> (c: Self)
        ensures
            c.id == id,
            c.command matches StoreCommand::Write { key, record: written } && key@ == key_of(
                prefix@,
                id@,
            ) && written == record,
    {
        let key = record_key(prefix, id.as_str());
        Creation { id, command: StoreCommand::Write { key, record } }
    }

}

/// What the creation under `id` comes to, given the store's reply to its
/// command; see [`creation_result`].
pub fn created<T>(id: String, reply: StoreReply<T>) -> (r: Result<String, StoreError>)
    ensures
        r == creation_result(id, reply),
{
    match reply {
        StoreReply::Done => Ok(id),
        other => Err(refusal(&other)),
    }
}

} // verus!
