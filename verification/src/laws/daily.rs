//! The law of the daily view: what its making comes to when both stores keep
//! their word.

use crate::aggregation::is_daily_view;
use crate::ideal::{answers, held, in_namespace, is_plain, lists_namespace, Contents};
use crate::laws::repository::{lemma_listed_records, stored_in_namespace};
use crate::models::medicine::Medicine;
use crate::models::schedule::{DailySchedule, MedicineSchedule};
use crate::order::{is_sorted, is_stable_sort_of};
use crate::repositories::schedule_repository::{
    is_daily_step, is_resolving_outcome, DailyAction, DailyEvent, DailyProgress, DailyResult,
};
use crate::store::{key_of, records_of, scan_pattern_of, Fetched, StoreReply};
use vstd::prelude::*;

verus! {

/// One turn of the making of a daily view: where it stood, what the store
/// said, where it stands now and what it asks next.
pub struct DailyTurn<N, R> {
    pub progress: DailyProgress<N>,
    pub event: DailyEvent<N>,
    pub next: DailyProgress<N>,
    pub action: DailyAction<N, R>,
}

/// `event` is what ideal stores say to `action`: the store of schedule
/// entries holds `schedules`, the store of medicines holds `medicines`.
pub open spec fn is_daily_answer<N, R>(
    schedules: Contents<MedicineSchedule<N>>,
    medicines: Contents<Medicine<N>>,
    action: DailyAction<N, R>,
    event: DailyEvent<N>,
) -> bool {
    match action {
        DailyAction::AskSchedules(command) => event matches DailyEvent::Schedules(reply)
            && answers(schedules, command, reply),
        DailyAction::AskMedicine(command) => event matches DailyEvent::Medicine(reply) && answers(
            medicines,
            command,
            reply,
        ),
        DailyAction::Finish(_) => false,
    }
}

/// `turns` is a making of the daily view for `date` from begin to end, in
/// ideal stores that hold `schedules` and `medicines`.
pub open spec fn is_daily_run<N, R: DailyResult<N>>(
    schedule_prefix: Seq<char>,
    medicine_prefix: Seq<char>,
    date: Seq<char>,
    schedules: Contents<MedicineSchedule<N>>,
    medicines: Contents<Medicine<N>>,
    turns: Seq<DailyTurn<N, R>>,
) -> bool {
    &&& turns.len() > 0
    &&& turns[0].progress is Listing
    &&& turns[0].event is Begin
    &&& forall|i: int|
        0 <= i < turns.len() ==> is_daily_step(
            schedule_prefix,
            medicine_prefix,
            date,
            (#[trigger] turns[i]).progress,
            turns[i].event,
            turns[i].next,
            turns[i].action,
        )
    &&& forall|i: int|
        1 <= i < turns.len() ==> (#[trigger] turns[i]).progress == turns[i - 1].next
            && is_daily_answer(schedules, medicines, turns[i - 1].action, turns[i].event)
    &&& turns.last().action is Finish
}

/// The medicine that the store holds for the entry `entry`, `None` where it
/// holds none.
pub open spec fn medicine_for<N>(
    medicines: Contents<Medicine<N>>,
    medicine_prefix: Seq<char>,
    entry: MedicineSchedule<N>,
) -> Option<Medicine<N>> {
    match held(medicines, key_of(medicine_prefix, entry.medicine_id@)) {
        Fetched::Record(m) => Some(m),
        _ => None,
    }
}

/// The medicines that the store holds for the entries `listed`, in their
/// order.
pub open spec fn medicines_for<N>(
    medicines: Contents<Medicine<N>>,
    medicine_prefix: Seq<char>,
    listed: Seq<MedicineSchedule<N>>,
) -> Seq<Option<Medicine<N>>> {
    Seq::new(listed.len(), |k: int| medicine_for(medicines, medicine_prefix, listed[k]))
}

/// No entry of the namespace names a medicine whose stored value is
/// undecodable.
pub open spec fn medicines_are_readable<N>(
    schedules: Contents<MedicineSchedule<N>>,
    schedule_prefix: Seq<char>,
    medicines: Contents<Medicine<N>>,
    medicine_prefix: Seq<char>,
) -> bool {
    forall|entry: MedicineSchedule<N>| #[trigger]
        stored_in_namespace(schedules, schedule_prefix, entry) ==> !(held(
            medicines,
            key_of(medicine_prefix, entry.medicine_id@),
        ) is Undecodable)
}

/// `result` is the daily view of the entries `listed` with the medicines that
/// the store holds for them.
pub open spec fn is_view_of<N, R: DailyResult<N>>(
    result: R,
    date: Seq<char>,
    medicines: Contents<Medicine<N>>,
    medicine_prefix: Seq<char>,
    listed: Seq<MedicineSchedule<N>>,
) -> bool {
    exists|days: Seq<DailySchedule<N>>| #[trigger]
        is_daily_view(listed, medicines_for(medicines, medicine_prefix, listed), days)
            && result.presents(date, days)
}

/// The medicines are read one entry after the other until the view is made.
proof fn lemma_resolving<N, R: DailyResult<N>>(
    schedule_prefix: Seq<char>,
    medicine_prefix: Seq<char>,
    date: Seq<char>,
    schedules: Contents<MedicineSchedule<N>>,
    medicines: Contents<Medicine<N>>,
    turns: Seq<DailyTurn<N, R>>,
    listed: Seq<MedicineSchedule<N>>,
    at: int,
    done: int,
)
    requires
        is_daily_run(schedule_prefix, medicine_prefix, date, schedules, medicines, turns),
        0 <= at < turns.len(),
        0 <= done <= listed.len(),
        forall|k: int|
            0 <= k < listed.len() ==> !(held(
                medicines,
                key_of(medicine_prefix, (#[trigger] listed[k]).medicine_id@),
            ) is Undecodable),
        is_resolving_outcome(
            medicine_prefix,
            date,
            listed,
            medicines_for(medicines, medicine_prefix, listed).take(done),
            turns[at].next,
            turns[at].action,
        ),
    ensures
        turns.last().action matches DailyAction::Finish(Ok(result)) && is_view_of(
            result,
            date,
            medicines,
            medicine_prefix,
            listed,
        ),
    decreases listed.len() - done,
{
    let found = medicines_for(medicines, medicine_prefix, listed);
    if done == listed.len() {
        assert(found.take(done) =~= found);
        if at < turns.len() - 1 {
            assert(turns[at + 1].progress == turns[at].next);
            assert(is_daily_answer(schedules, medicines, turns[at].action, turns[at + 1].event));
        }
        assert(at == turns.len() - 1);
        let result = turns[at].action->Finish_0->Ok_0;
        let days = choose|days: Seq<DailySchedule<N>>| #[trigger]
            is_daily_view(listed, found.take(done), days) && result.presents(date, days);
        assert(is_daily_view(listed, found, days) && result.presents(date, days));
    } else {
        assert(found.take(done).len() == done);
        assert(turns[at].action is AskMedicine);
        assert(at < turns.len() - 1);
        let turn = turns[at + 1];
        assert(turn.progress == turns[at].next);
        assert(is_daily_answer(schedules, medicines, turns[at].action, turn.event));
        let key = turns[at].action->AskMedicine_0->Read_key;
        assert(key@ == key_of(medicine_prefix, listed[done].medicine_id@));
        let reply = turn.event->Medicine_0;
        assert(reply == StoreReply::Value(held(medicines, key@)));
        assert(!(held(medicines, key@) is Undecodable));
        assert(is_daily_step(
            schedule_prefix,
            medicine_prefix,
            date,
            turn.progress,
            turn.event,
            turn.next,
            turn.action,
        ));
        assert(found.take(done).push(found[done]) =~= found.take(done + 1));
        assert(found[done] == medicine_for(medicines, medicine_prefix, listed[done]));
        lemma_resolving(
            schedule_prefix,
            medicine_prefix,
            date,
            schedules,
            medicines,
            turns,
            listed,
            at + 1,
            done + 1,
        );
    }
}

/// The daily view in ideal stores: where no schedule entry names a medicine
/// whose stored value is undecodable, the making ends with the view of all
/// schedule entries that the store holds, whatever the date. The entries are
/// taken in the order of a listing, and each comes with the medicine that the
/// store of medicines holds under the identifier it names, or with `None`
/// where it holds none: an entry whose medicine was deleted keeps its place
/// and its amount.
pub proof fn law_daily_view_joins_what_is_stored<N, R: DailyResult<N>>(
    schedule_prefix: Seq<char>,
    medicine_prefix: Seq<char>,
    date: Seq<char>,
    schedules: Contents<MedicineSchedule<N>>,
    medicines: Contents<Medicine<N>>,
    turns: Seq<DailyTurn<N, R>>,
)
    requires
        is_plain(schedule_prefix),
        medicines_are_readable(schedules, schedule_prefix, medicines, medicine_prefix),
        is_daily_run(schedule_prefix, medicine_prefix, date, schedules, medicines, turns),
    ensures
        turns.last().action matches DailyAction::Finish(Ok(result)) && exists|
            listed: Seq<MedicineSchedule<N>>,
        |
            {
                &&& is_sorted(listed)
                &&& forall|x: MedicineSchedule<N>| #[trigger]
                    listed.contains(x) <==> stored_in_namespace(schedules, schedule_prefix, x)
                &&& #[trigger] is_view_of(result, date, medicines, medicine_prefix, listed)
            },
{
    let first = turns[0];
    assert(is_daily_step(
        schedule_prefix,
        medicine_prefix,
        date,
        first.progress,
        first.event,
        first.next,
        first.action,
    ));
    assert(turns.len() > 1);
    let second = turns[1];
    assert(second.progress == first.next);
    assert(is_daily_answer(schedules, medicines, first.action, second.event));
    let pattern = first.action->AskSchedules_0->pattern;
    assert(pattern@ == scan_pattern_of(schedule_prefix));
    let keys = second.event->Schedules_0->Keys_0;
    assert(lists_namespace(schedules, schedule_prefix, keys@));
    assert(is_daily_step(
        schedule_prefix,
        medicine_prefix,
        date,
        second.progress,
        second.event,
        second.next,
        second.action,
    ));
    if keys@.len() == 0 {
        let listed = Seq::<MedicineSchedule<N>>::empty();
        assert(medicines_for(medicines, medicine_prefix, listed) =~= Seq::empty());
        assert(medicines_for(medicines, medicine_prefix, listed).take(0) =~= Seq::empty());
        lemma_resolving(
            schedule_prefix,
            medicine_prefix,
            date,
            schedules,
            medicines,
            turns,
            listed,
            1,
            0,
        );
        assert forall|x: MedicineSchedule<N>| #[trigger]
            listed.contains(x) <==> stored_in_namespace(schedules, schedule_prefix, x) by {
            if stored_in_namespace(schedules, schedule_prefix, x) {
                let k = choose|k: Seq<char>|
                    #![trigger schedules.dom().contains(k)]
                    schedules.dom().contains(k) && in_namespace(schedule_prefix, k)
                        && schedules[k] == Some(x);
                assert(schedules.dom().contains(k));
            }
        }
        let result = turns.last().action->Finish_0->Ok_0;
        assert(is_sorted(listed) && is_view_of(result, date, medicines, medicine_prefix, listed));
    } else {
        assert(turns.len() > 2);
        let third = turns[2];
        assert(third.progress == second.next);
        assert(is_daily_answer(schedules, medicines, second.action, third.event));
        let values = third.event->Schedules_0->Values_0;
        assert(is_daily_step(
            schedule_prefix,
            medicine_prefix,
            date,
            third.progress,
            third.event,
            third.next,
            third.action,
        ));
        let listed = choose|listed: Seq<MedicineSchedule<N>>| #[trigger]
            is_stable_sort_of(listed, records_of(values@)) && is_resolving_outcome(
                medicine_prefix,
                date,
                listed,
                Seq::empty(),
                third.next,
                third.action,
            );
        lemma_listed_records(schedule_prefix, schedules, keys@, values@, listed);
        assert(medicines_for(medicines, medicine_prefix, listed).take(0) =~= Seq::empty());
        assert forall|k: int| 0 <= k < listed.len() implies !(held(
            medicines,
            key_of(medicine_prefix, (#[trigger] listed[k]).medicine_id@),
        ) is Undecodable) by {
            assert(listed.contains(listed[k]));
            assert(stored_in_namespace(schedules, schedule_prefix, listed[k]));
        }
        lemma_resolving(
            schedule_prefix,
            medicine_prefix,
            date,
            schedules,
            medicines,
            turns,
            listed,
            2,
            0,
        );
        let result = turns.last().action->Finish_0->Ok_0;
        assert(is_sorted(listed) && is_view_of(result, date, medicines, medicine_prefix, listed));
    }
}

} // verus!
