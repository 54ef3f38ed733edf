//! The laws of creating, reading, updating, deleting and listing records, and
//! of adding stock.

use crate::ideal::{
    after, answers, held, in_namespace, is_plain, lemma_key_of_injective, lists_namespace,
    Contents,
};
use crate::models::medicine::{ApiMedicine, Medicine, MedicineView};
use crate::order::{is_sorted, is_stable_sort_of, lemma_stable_sort_len, NaturalOrder};
use crate::repositories::medicine_repository::{is_add_stock_step, is_medicine_creation};
use crate::store::{
    creation_result, is_list_step, is_read_step, is_remove_step, is_write_step, key_of,
    lemma_records_of_all_records, lemma_records_of_contains, records_of, scan_pattern_of,
    Creation, Fetched, Step, StoreCommand, StoreError, StoreReply,
};
use vstd::prelude::*;
use vstd::std_specs::ops::AddSpec;

verus! {

/// The reading of one record, from the command to the outcome.
pub struct ReadRun<T> {
    pub asked: StoreCommand<T>,
    pub reply: StoreReply<T>,
    pub outcome: Step<T, Option<T>>,
}

/// `run` is a reading of the record `id` in the namespace `prefix` of an ideal
/// store that holds `contents`.
pub open spec fn is_read_run<T>(
    prefix: Seq<char>,
    id: Seq<char>,
    contents: Contents<T>,
    run: ReadRun<T>,
) -> bool {
    &&& is_read_step(prefix, id, None, Step::Send(run.asked))
    &&& answers(contents, run.asked, run.reply)
    &&& is_read_step(prefix, id, Some(run.reply), run.outcome)
}

/// What a reading comes to for what is held under the key.
pub open spec fn read_result<T>(found: Fetched<T>) -> Result<Option<T>, StoreError> {
    match found {
        Fetched::Record(record) => Ok(Some(record)),
        Fetched::Absent => Ok(None),
        Fetched::Undecodable => Err(StoreError::Decode),
    }
}

/// A reading returns what the store holds under the record's key: the record,
/// `None` where the key is absent, a decode error where the value is no
/// record.
pub proof fn law_read_returns_what_is_held<T>(
    prefix: Seq<char>,
    id: Seq<char>,
    contents: Contents<T>,
    run: ReadRun<T>,
)
    requires
        is_read_run(prefix, id, contents, run),
    ensures
        run.outcome == Step::<T, Option<T>>::Finish(
            read_result(held(contents, key_of(prefix, id))),
        ),
{
}

/// A reading changes nothing in the store.
pub proof fn law_read_changes_nothing<T>(
    prefix: Seq<char>,
    id: Seq<char>,
    contents: Contents<T>,
    run: ReadRun<T>,
)
    requires
        is_read_run(prefix, id, contents, run),
    ensures
        after(contents, run.asked) == contents,
{
}

/// Round trip: a record that was created is read back under its identifier
/// exactly as it was written, whatever the store held before.
pub proof fn law_created_record_is_read_back<T>(
    prefix: Seq<char>,
    creation: Creation<T>,
    record: T,
    contents: Contents<T>,
    written: StoreReply<T>,
    run: ReadRun<T>,
)
    requires
        creation.command matches StoreCommand::Write { key, record: r } && key@ == key_of(
            prefix,
            creation.id@,
        ) && r == record,
        answers(contents, creation.command, written),
        is_read_run(prefix, creation.id@, after(contents, creation.command), run),
    ensures
        creation_result(creation.id, written) == Ok::<String, StoreError>(creation.id),
        run.outcome == Step::<T, Option<T>>::Finish(Ok(Some(record))),
{
}

/// Round trip for medicines: creating a medicine and reading it under the
/// identifier that the creation returned gives a medicine with the values
/// that were handed in, under that identifier, which is not empty.
pub proof fn law_medicine_round_trip<N>(
    prefix: Seq<char>,
    api: ApiMedicine<N>,
    creation: Creation<Medicine<N>>,
    contents: Contents<Medicine<N>>,
    written: StoreReply<Medicine<N>>,
    run: ReadRun<Medicine<N>>,
)
    requires
        is_medicine_creation(prefix, api, creation),
        answers(contents, creation.command, written),
        is_read_run(prefix, creation.id@, after(contents, creation.command), run),
    ensures
        creation_result(creation.id, written) == Ok::<String, StoreError>(creation.id),
        creation.id@.len() > 0,
        run.outcome matches Step::Finish(Ok(Some(m))) && m@ == (MedicineView {
            id: creation.id@,
            name: api.name@,
            dose: api.dose,
            unit: api.unit@,
            stock: api.stock,
        }),
{
}

/// The updating or deleting of one record, from the command to the outcome.
pub struct ChangeRun<T, R> {
    pub asked: StoreCommand<T>,
    pub reply: StoreReply<T>,
    pub outcome: Step<T, R>,
}

/// `run` is a deletion of the record `id` in the namespace `prefix` of an
/// ideal store that holds `contents`.
pub open spec fn is_delete_run<T>(
    prefix: Seq<char>,
    id: Seq<char>,
    contents: Contents<T>,
    run: ChangeRun<T, ()>,
) -> bool {
    &&& is_remove_step(prefix, id, None, Step::Send(run.asked))
    &&& answers(contents, run.asked, run.reply)
    &&& is_remove_step(prefix, id, Some(run.reply), run.outcome)
}

/// `run` is a writing of `record` under `id` in the namespace `prefix` of an
/// ideal store that holds `contents`.
pub open spec fn is_write_run<T>(
    prefix: Seq<char>,
    id: Seq<char>,
    record: T,
    contents: Contents<T>,
    run: ChangeRun<T, bool>,
) -> bool {
    &&& is_write_step(prefix, id, record, None, Step::Send(run.asked))
    &&& answers(contents, run.asked, run.reply)
    &&& is_write_step(prefix, id, record, Some(run.reply), run.outcome)
}

/// An update succeeds whether or not the record existed, and a reading then
/// returns the record that was written.
pub proof fn law_update_is_unconditional<T>(
    prefix: Seq<char>,
    id: Seq<char>,
    record: T,
    contents: Contents<T>,
    update: ChangeRun<T, bool>,
    read: ReadRun<T>,
)
    requires
        is_write_run(prefix, id, record, contents, update),
        is_read_run(prefix, id, after(contents, update.asked), read),
    ensures
        update.outcome == Step::<T, bool>::Finish(Ok(true)),
        read.outcome == Step::<T, Option<T>>::Finish(Ok(Some(record))),
{
}

/// Delete finality: a deletion succeeds whether or not the record existed,
/// and a reading of the same identifier then finds nothing. Records under
/// other identifiers are as they were.
pub proof fn law_deleted_record_is_absent<T>(
    prefix: Seq<char>,
    id: Seq<char>,
    contents: Contents<T>,
    delete: ChangeRun<T, ()>,
    read: ReadRun<T>,
)
    requires
        is_delete_run(prefix, id, contents, delete),
        is_read_run(prefix, id, after(contents, delete.asked), read),
    ensures
        delete.outcome == Step::<T, ()>::Finish(Ok(())),
        read.outcome == Step::<T, Option<T>>::Finish(Ok(None)),
        forall|other: Seq<char>|
            other != id ==> #[trigger] held(after(contents, delete.asked), key_of(prefix, other))
                == held(contents, key_of(prefix, other)),
{
    assert forall|other: Seq<char>| other != id implies #[trigger] held(
        after(contents, delete.asked),
        key_of(prefix, other),
    ) == held(contents, key_of(prefix, other)) by {
        lemma_key_of_injective(prefix, id, other);
    }
}

/// The adding of stock to one medicine, from the first command to the
/// outcome: the reading, and the writing where the medicine was found.
pub struct AddStockRun<N> {
    pub asked: StoreCommand<Medicine<N>>,
    pub found: StoreReply<Medicine<N>>,
    pub next: Step<Medicine<N>, bool>,
    pub written: StoreReply<Medicine<N>>,
    pub last: Step<Medicine<N>, bool>,
}

/// `run` is an adding of `amount` to the stock of the medicine `id` in the
/// namespace `prefix` of an ideal store that holds `contents`.
pub open spec fn is_add_stock_run<N: core::ops::Add<Output = N>>(
    prefix: Seq<char>,
    id: Seq<char>,
    amount: N,
    contents: Contents<Medicine<N>>,
    run: AddStockRun<N>,
) -> bool {
    &&& is_add_stock_step(prefix, id, amount, None, Step::Send(run.asked))
    &&& answers(contents, run.asked, run.found)
    &&& is_add_stock_step(prefix, id, amount, Some(run.found), run.next)
    &&& run.next matches Step::Send(command) ==> {
        &&& answers(contents, command, run.written)
        &&& is_add_stock_step(prefix, id, amount, Some(run.written), run.last)
    }
}

/// What an adding of stock comes to.
pub open spec fn add_stock_outcome<N>(run: AddStockRun<N>) -> Step<Medicine<N>, bool> {
    match run.next {
        Step::Send(_) => run.last,
        Step::Finish(_) => run.next,
    }
}

/// What the store holds after an adding of stock.
pub open spec fn after_add_stock<N>(contents: Contents<Medicine<N>>, run: AddStockRun<N>) -> Contents<
    Medicine<N>,
> {
    match run.next {
        Step::Send(command) => after(contents, command),
        Step::Finish(_) => contents,
    }
}

/// Adding stock to a medicine that the store holds returns `true` and leaves
/// the medicine under its key with `amount` added to its stock and nothing
/// else changed. The sum is stated where `N` adds as its specification says,
/// as the integer types do.
pub proof fn law_stock_is_added<N: core::ops::Add<Output = N>>(
    prefix: Seq<char>,
    id: Seq<char>,
    amount: N,
    contents: Contents<Medicine<N>>,
    before: Medicine<N>,
    run: AddStockRun<N>,
)
    requires
        held(contents, key_of(prefix, id)) == Fetched::Record(before),
        is_add_stock_run(prefix, id, amount, contents, run),
    ensures
        add_stock_outcome(run) == Step::<Medicine<N>, bool>::Finish(Ok(true)),
        held(after_add_stock(contents, run), key_of(prefix, id)) matches Fetched::Record(now) && {
            &&& now.id == before.id
            &&& now.name == before.name
            &&& now.dose == before.dose
            &&& now.unit == before.unit
            &&& N::obeys_add_spec() ==> now.stock == before.stock.add_spec(amount)
        },
{
}

/// Adding stock to a medicine that the store does not hold returns `false`
/// and changes nothing.
pub proof fn law_stock_of_missing_medicine<N: core::ops::Add<Output = N>>(
    prefix: Seq<char>,
    id: Seq<char>,
    amount: N,
    contents: Contents<Medicine<N>>,
    run: AddStockRun<N>,
)
    requires
        held(contents, key_of(prefix, id)) == Fetched::<Medicine<N>>::Absent,
        is_add_stock_run(prefix, id, amount, contents, run),
    ensures
        add_stock_outcome(run) == Step::<Medicine<N>, bool>::Finish(Ok(false)),
        after_add_stock(contents, run) == contents,
{
}

/// Stock accumulation: adding `first` and then `second` to a medicine leaves
/// it with both added to its stock, in this order.
pub proof fn law_stock_accumulates<N: core::ops::Add<Output = N>>(
    prefix: Seq<char>,
    id: Seq<char>,
    first: N,
    second: N,
    contents: Contents<Medicine<N>>,
    before: Medicine<N>,
    run1: AddStockRun<N>,
    run2: AddStockRun<N>,
)
    requires
        held(contents, key_of(prefix, id)) == Fetched::Record(before),
        is_add_stock_run(prefix, id, first, contents, run1),
        is_add_stock_run(prefix, id, second, after_add_stock(contents, run1), run2),
    ensures
        add_stock_outcome(run2) == Step::<Medicine<N>, bool>::Finish(Ok(true)),
        held(
            after_add_stock(after_add_stock(contents, run1), run2),
            key_of(prefix, id),
        ) matches Fetched::Record(now) && (N::obeys_add_spec() ==> now.stock
            == before.stock.add_spec(first).add_spec(second)),
{
    law_stock_is_added(prefix, id, first, contents, before, run1);
    let middle = after_add_stock(contents, run1);
    let between = held(middle, key_of(prefix, id))->Record_0;
    law_stock_is_added(prefix, id, second, middle, between, run2);
}

/// A listing, from the first command to the outcome: the listing of the keys,
/// and the reading of their values where there are keys.
pub struct ListRun<T> {
    pub scan: StoreCommand<T>,
    pub scanned: StoreReply<T>,
    pub next: Step<T, Vec<T>>,
    pub fetched: StoreReply<T>,
    pub last: Step<T, Vec<T>>,
}

/// `run` is a listing of the namespace `prefix` of an ideal store that holds
/// `contents`.
pub open spec fn is_list_run<T: NaturalOrder>(
    prefix: Seq<char>,
    contents: Contents<T>,
    run: ListRun<T>,
) -> bool {
    &&& is_list_step(prefix, None, Step::Send(run.scan))
    &&& answers(contents, run.scan, run.scanned)
    &&& is_list_step(prefix, Some(run.scanned), run.next)
    &&& run.next matches Step::Send(command) ==> {
        &&& answers(contents, command, run.fetched)
        &&& is_list_step(prefix, Some(run.fetched), run.last)
    }
}

/// What a listing comes to.
pub open spec fn list_outcome<T>(run: ListRun<T>) -> Step<T, Vec<T>> {
    match run.next {
        Step::Send(_) => run.last,
        Step::Finish(_) => run.next,
    }
}

/// The keys that a listing was given.
pub open spec fn listed_keys<T>(run: ListRun<T>) -> Seq<String> {
    match run.scanned {
        StoreReply::Keys(keys) => keys@,
        _ => Seq::empty(),
    }
}

/// The values that a listing was given for its keys.
pub open spec fn listed_values<T>(run: ListRun<T>) -> Seq<Fetched<T>> {
    match (run.next, run.fetched) {
        (Step::Send(_), StoreReply::Values(values)) => values@,
        _ => Seq::empty(),
    }
}

/// The store holds the record `x` under a key of the namespace `prefix`.
pub open spec fn stored_in_namespace<T>(contents: Contents<T>, prefix: Seq<char>, x: T) -> bool {
    exists|k: Seq<char>|
        #![trigger contents.dom().contains(k)]
        contents.dom().contains(k) && in_namespace(prefix, k) && contents[k] == Some(x)
}

/// How a listing goes in an ideal store: it is given the keys of the
/// namespace, each once, and the value under each, and it returns the records
/// among the values in natural order.
proof fn lemma_list_run<T: NaturalOrder>(prefix: Seq<char>, contents: Contents<T>, run: ListRun<T>)
    requires
        is_plain(prefix),
        is_list_run(prefix, contents, run),
    ensures
        lists_namespace(contents, prefix, listed_keys(run)),
        listed_values(run).len() == listed_keys(run).len(),
        forall|i: int|
            0 <= i < listed_keys(run).len() ==> #[trigger] listed_values(run)[i] == held(
                contents,
                listed_keys(run)[i]@,
            ),
        list_outcome(run) matches Step::Finish(Ok(records)) && is_stable_sort_of(
            records@,
            records_of(listed_values(run)),
        ),
{
    let pattern = run.scan->pattern;
    assert(pattern@ == scan_pattern_of(prefix));
    let keys = run.scanned->Keys_0;
    assert(lists_namespace(contents, prefix, keys@));
    if keys@.len() == 0 {
        let records = list_outcome(run)->Finish_0->Ok_0;
        assert(records@ =~= Seq::<T>::empty());
        assert(records_of(listed_values(run)) =~= Seq::<T>::empty());
    }
}

/// The records that a listing returns for the keys of a namespace and the
/// values under them are the records that the store holds in the namespace.
pub proof fn lemma_listed_records<T: NaturalOrder>(
    prefix: Seq<char>,
    contents: Contents<T>,
    keys: Seq<String>,
    values: Seq<Fetched<T>>,
    records: Seq<T>,
)
    requires
        lists_namespace(contents, prefix, keys),
        values.len() == keys.len(),
        forall|i: int| 0 <= i < keys.len() ==> #[trigger] values[i] == held(contents, keys[i]@),
        is_stable_sort_of(records, records_of(values)),
    ensures
        forall|x: T| #[trigger] records.contains(x) <==> stored_in_namespace(contents, prefix, x),
{
    assert forall|x: T| #[trigger] records.contains(x) <==> stored_in_namespace(
        contents,
        prefix,
        x,
    ) by {
        records.to_multiset_ensures();
        records_of(values).to_multiset_ensures();
        lemma_records_of_contains(values, x);
        assert(records.contains(x) <==> records.to_multiset().count(x) > 0);
        assert(records_of(values).contains(x) <==> records_of(values).to_multiset().count(x) > 0);
        if records.contains(x) {
            assert(records_of(values).contains(x));
            let i = choose|i: int| 0 <= i < values.len() && #[trigger] values[i] == Fetched::Record(x);
            assert(values[i] == held(contents, keys[i]@));
            assert(contents.dom().contains(keys[i]@));
        }
        if stored_in_namespace(contents, prefix, x) {
            let k = choose|k: Seq<char>|
                #![trigger contents.dom().contains(k)]
                contents.dom().contains(k) && in_namespace(prefix, k) && contents[k] == Some(x);
            let i = choose|i: int| 0 <= i < keys.len() && (#[trigger] keys[i])@ == k;
            assert(values[i] == held(contents, keys[i]@));
            assert(values[i] == Fetched::Record(x));
        }
    }
}

/// A listing in an ideal store returns the records that the store holds in
/// the namespace, all of them and no others, in natural order. A value that is
/// no record is left out without an error.
pub proof fn law_listing_is_sorted_and_complete<T: NaturalOrder>(
    prefix: Seq<char>,
    contents: Contents<T>,
    run: ListRun<T>,
)
    requires
        is_plain(prefix),
        is_list_run(prefix, contents, run),
    ensures
        list_outcome(run) matches Step::Finish(Ok(records)) && {
            &&& is_sorted(records@)
            &&& forall|x: T| #[trigger]
                records@.contains(x) <==> stored_in_namespace(contents, prefix, x)
        },
{
    lemma_list_run(prefix, contents, run);
    let records = list_outcome(run)->Finish_0->Ok_0;
    lemma_listed_records(prefix, contents, listed_keys(run), listed_values(run), records@);
}

/// Delete finality for listings: after a deletion, a listing returns no
/// record that the store held under the deleted key only.
pub proof fn law_deleted_record_is_not_listed<T: NaturalOrder>(
    prefix: Seq<char>,
    id: Seq<char>,
    contents: Contents<T>,
    delete: ChangeRun<T, ()>,
    run: ListRun<T>,
)
    requires
        is_plain(prefix),
        is_delete_run(prefix, id, contents, delete),
        is_list_run(prefix, after(contents, delete.asked), run),
    ensures
        list_outcome(run) matches Step::Finish(Ok(records)) && forall|x: T| #[trigger]
            records@.contains(x) ==> exists|k: Seq<char>|
                #![trigger contents.dom().contains(k)]
                contents.dom().contains(k) && k != key_of(prefix, id) && in_namespace(prefix, k)
                    && contents[k] == Some(x),
{
    let remaining = after(contents, delete.asked);
    law_listing_is_sorted_and_complete(prefix, remaining, run);
    let records = list_outcome(run)->Finish_0->Ok_0;
    assert forall|x: T| #[trigger] records@.contains(x) implies exists|k: Seq<char>|
        #![trigger contents.dom().contains(k)]
        contents.dom().contains(k) && k != key_of(prefix, id) && in_namespace(prefix, k)
            && contents[k] == Some(x) by {
        assert(stored_in_namespace(remaining, prefix, x));
        let k = choose|k: Seq<char>|
            #![trigger remaining.dom().contains(k)]
            remaining.dom().contains(k) && in_namespace(prefix, k) && remaining[k] == Some(x);
        assert(contents.dom().contains(k));
    }
}

/// Every medicine of the namespace `prefix` is stored under the key of its
/// own identifier, as creations and updates store it.
pub open spec fn is_keyed_by_id<N>(contents: Contents<Medicine<N>>, prefix: Seq<char>) -> bool {
    forall|k: Seq<char>|
        #![trigger contents.dom().contains(k)]
        contents.dom().contains(k) && in_namespace(prefix, k) ==> (contents[k] matches Some(m)
            ==> k == key_of(prefix, m.id@))
}

/// Delete finality for medicines: where every medicine is stored under its
/// own identifier, a listing after the deletion of `id` returns no medicine
/// with this identifier.
pub proof fn law_deleted_medicine_is_not_listed<N>(
    prefix: Seq<char>,
    id: Seq<char>,
    contents: Contents<Medicine<N>>,
    delete: ChangeRun<Medicine<N>, ()>,
    run: ListRun<Medicine<N>>,
)
    requires
        is_plain(prefix),
        is_keyed_by_id(contents, prefix),
        is_delete_run(prefix, id, contents, delete),
        is_list_run(prefix, after(contents, delete.asked), run),
    ensures
        list_outcome(run) matches Step::Finish(Ok(records)) && forall|i: int|
            0 <= i < records@.len() ==> (#[trigger] records@[i]).id@ != id,
{
    law_deleted_record_is_not_listed(prefix, id, contents, delete, run);
    let records = list_outcome(run)->Finish_0->Ok_0;
    assert forall|i: int| 0 <= i < records@.len() implies (#[trigger] records@[i]).id@ != id by {
        let x = records@[i];
        assert(records@.contains(x));
        let k = choose|k: Seq<char>|
            #![trigger contents.dom().contains(k)]
            contents.dom().contains(k) && k != key_of(prefix, id) && in_namespace(prefix, k)
                && contents[k] == Some(x);
        assert(k == key_of(prefix, x.id@));
    }
}

/// What the store holds after the records `records` were written under the
/// identifiers `ids`, one after the other, in the namespace `prefix`.
pub open spec fn after_writes<T>(
    base: Contents<T>,
    prefix: Seq<char>,
    ids: Seq<Seq<char>>,
    records: Seq<T>,
) -> Contents<T>
    decreases ids.len(),
{
    if ids.len() == 0 {
        base
    } else {
        after_writes(base, prefix, ids.drop_last(), records.drop_last()).insert(
            key_of(prefix, ids.last()),
            Some(records.last()),
        )
    }
}

/// The store holds nothing in the namespace `prefix`.
pub open spec fn is_empty_namespace<T>(contents: Contents<T>, prefix: Seq<char>) -> bool {
    forall|k: Seq<char>|
        #![trigger contents.dom().contains(k)]
        contents.dom().contains(k) ==> !in_namespace(prefix, k)
}

/// After writes under distinct identifiers into an empty namespace, the
/// namespace holds each record under the key of its identifier and nothing
/// else.
proof fn lemma_after_writes<T>(
    base: Contents<T>,
    prefix: Seq<char>,
    ids: Seq<Seq<char>>,
    records: Seq<T>,
)
    requires
        is_empty_namespace(base, prefix),
        ids.no_duplicates(),
        ids.len() == records.len(),
    ensures
        forall|i: int|
            #![trigger ids[i]]
            0 <= i < ids.len() ==> after_writes(base, prefix, ids, records).dom().contains(
                key_of(prefix, ids[i]),
            ) && after_writes(base, prefix, ids, records)[key_of(prefix, ids[i])] == Some(
                records[i],
            ),
        forall|k: Seq<char>|
            #![trigger after_writes(base, prefix, ids, records).dom().contains(k)]
            after_writes(base, prefix, ids, records).dom().contains(k) && in_namespace(prefix, k)
                ==> exists|i: int| 0 <= i < ids.len() && k == key_of(prefix, #[trigger] ids[i]),
    decreases ids.len(),
{
    if ids.len() > 0 {
        let n = ids.len() - 1;
        let front_ids = ids.drop_last();
        let front_records = records.drop_last();
        let before = after_writes(base, prefix, front_ids, front_records);
        let now = after_writes(base, prefix, ids, records);
        assert(front_ids.no_duplicates());
        lemma_after_writes(base, prefix, front_ids, front_records);
        assert forall|i: int| #![trigger ids[i]] 0 <= i < ids.len() implies now.dom().contains(
            key_of(prefix, ids[i]),
        ) && now[key_of(prefix, ids[i])] == Some(records[i]) by {
            if i < n {
                assert(front_ids[i] == ids[i]);
                assert(front_records[i] == records[i]);
                assert(ids[i] != ids[n]);
                lemma_key_of_injective(prefix, ids[i], ids[n]);
            }
        }
        assert forall|k: Seq<char>|
            #![trigger now.dom().contains(k)]
            now.dom().contains(k) && in_namespace(prefix, k) implies exists|i: int|
            0 <= i < ids.len() && k == key_of(prefix, #[trigger] ids[i]) by {
            if k == key_of(prefix, ids[n]) {
            } else {
                assert(before.dom().contains(k));
                let i = choose|i: int|
                    0 <= i < front_ids.len() && k == key_of(prefix, #[trigger] front_ids[i]);
                assert(front_ids[i] == ids[i]);
            }
        }
    }
}

/// List completeness: after `records` were written under the distinct
/// identifiers `ids` into a namespace that was empty, a listing returns
/// exactly these records, as many as were written, in natural order.
pub proof fn law_listing_after_creations<T: NaturalOrder>(
    prefix: Seq<char>,
    base: Contents<T>,
    ids: Seq<Seq<char>>,
    records: Seq<T>,
    run: ListRun<T>,
)
    requires
        is_plain(prefix),
        is_empty_namespace(base, prefix),
        ids.no_duplicates(),
        ids.len() == records.len(),
        is_list_run(prefix, after_writes(base, prefix, ids, records), run),
    ensures
        list_outcome(run) matches Step::Finish(Ok(listed)) && {
            &&& listed@.len() == records.len()
            &&& is_sorted(listed@)
            &&& forall|i: int| 0 <= i < records.len() ==> listed@.contains(#[trigger] records[i])
            &&& forall|j: int|
                0 <= j < listed@.len() ==> records.contains(#[trigger] listed@[j])
        },
{
    let contents = after_writes(base, prefix, ids, records);
    lemma_after_writes(base, prefix, ids, records);
    lemma_list_run(prefix, contents, run);
    law_listing_is_sorted_and_complete(prefix, contents, run);
    let listed = list_outcome(run)->Finish_0->Ok_0;
    let keys = listed_keys(run);
    let values = listed_values(run);
    assert forall|i: int| 0 <= i < records.len() implies listed@.contains(
        #[trigger] records[i],
    ) by {
        let k = key_of(prefix, ids[i]);
        lemma_key_of_injective(prefix, ids[i], ids[i]);
        assert(contents.dom().contains(k) && in_namespace(prefix, k) && contents[k] == Some(
            records[i],
        ));
        assert(stored_in_namespace(contents, prefix, records[i]));
    }
    assert forall|j: int| 0 <= j < listed@.len() implies records.contains(
        #[trigger] listed@[j],
    ) by {
        let x = listed@[j];
        assert(listed@.contains(x));
        assert(stored_in_namespace(contents, prefix, x));
        let k = choose|k: Seq<char>|
            #![trigger contents.dom().contains(k)]
            contents.dom().contains(k) && in_namespace(prefix, k) && contents[k] == Some(x);
        let i = choose|i: int| 0 <= i < ids.len() && k == key_of(prefix, #[trigger] ids[i]);
        assert(records[i] == x);
    }
    // As many keys are listed as identifiers were written under.
    let key_texts = Seq::new(keys.len(), |i: int| keys[i]@);
    let written_keys = Seq::new(ids.len(), |i: int| key_of(prefix, ids[i]));
    assert(key_texts.no_duplicates());
    assert(written_keys.no_duplicates()) by {
        assert forall|a: int, b: int|
            0 <= a < written_keys.len() && 0 <= b < written_keys.len() && a != b implies written_keys[a]
            != written_keys[b] by {
            lemma_key_of_injective(prefix, ids[a], ids[b]);
        }
    }
    assert(key_texts.to_set() =~= written_keys.to_set()) by {
        assert forall|k: Seq<char>| key_texts.to_set().contains(k) implies written_keys.to_set().contains(
            k,
        ) by {
            let i = choose|i: int| 0 <= i < key_texts.len() && key_texts[i] == k;
            assert(contents.dom().contains(keys[i]@) && in_namespace(prefix, keys[i]@));
            let j = choose|j: int| 0 <= j < ids.len() && k == key_of(prefix, #[trigger] ids[j]);
            assert(written_keys[j] == k);
        }
        assert forall|k: Seq<char>| written_keys.to_set().contains(k) implies key_texts.to_set().contains(
            k,
        ) by {
            let j = choose|j: int| 0 <= j < written_keys.len() && written_keys[j] == k;
            lemma_key_of_injective(prefix, ids[j], ids[j]);
            assert(contents.dom().contains(k) && in_namespace(prefix, k));
            let i = choose|i: int| 0 <= i < keys.len() && (#[trigger] keys[i])@ == k;
            assert(key_texts[i] == k);
        }
    }
    key_texts.unique_seq_to_set();
    written_keys.unique_seq_to_set();
    assert(keys.len() == ids.len());
    assert forall|i: int| 0 <= i < values.len() implies #[trigger] values[i] is Record by {
        assert(values[i] == held(contents, keys[i]@));
        assert(contents.dom().contains(keys[i]@) && in_namespace(prefix, keys[i]@));
        let j = choose|j: int| 0 <= j < ids.len() && keys[i]@ == key_of(prefix, #[trigger] ids[j]);
    }
    lemma_records_of_all_records(values);
    lemma_stable_sort_len(listed@, records_of(values));
}

} // verus!
