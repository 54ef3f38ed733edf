//! The view of a day: the schedule entries grouped by their time of day, each
//! with the medicine it names, if that medicine exists.

use crate::models::medicine::Medicine;
use crate::models::schedule::{DailySchedule, MedicineSchedule};
use crate::text::{lemma_text_lt_transitive, lemma_text_trichotomy, str_lt, text_lt};
use vstd::prelude::*;

verus! {

/// What is due at `time`: for each entry of `schedules` with exactly this
/// time, in their order, the medicine found for it and its amount. The
/// medicine of the entry at position `k` is `medicines[k]`, `None` where the
/// entry names a medicine that does not exist.
pub open spec fn due_at<N>(
    schedules: Seq<MedicineSchedule<N>>,
    medicines: Seq<Option<Medicine<N>>>,
    time: Seq<char>,
) -> Seq<(Option<Medicine<N>>, N)>
    decreases schedules.len(),
{
    if schedules.len() == 0 {
        Seq::empty()
    } else {
        let k = schedules.len() - 1;
        let before = due_at(schedules.drop_last(), medicines, time);
        if schedules[k].time@ == time {
            before.push((medicines[k], schedules[k].amount))
        } else {
            before
        }
    }
}

/// Some entry of `days` is for `time`.
pub open spec fn has_time<N>(days: Seq<DailySchedule<N>>, time: Seq<char>) -> bool {
    exists|j: int| 0 <= j < days.len() && (#[trigger] days[j]).time@ == time
}

/// `days` is the view of a day for `schedules` and the medicines found for
/// them: one entry for each time that occurs among the schedules, the times
/// compared as they are written; the entries in strictly ascending order of
/// the text of their time; each with all that is due at its time, and not yet
/// marked as taken.
pub open spec fn is_daily_view<N>(
    schedules: Seq<MedicineSchedule<N>>,
    medicines: Seq<Option<Medicine<N>>>,
    days: Seq<DailySchedule<N>>,
) -> bool {
    &&& forall|i: int, j: int|
        #![trigger days[i], days[j]]
        0 <= i < j < days.len() ==> text_lt(days[i].time@, days[j].time@)
    &&& forall|k: int| 0 <= k < schedules.len() ==> has_time(days, (#[trigger] schedules[k]).time@)
    &&& forall|i: int|
        0 <= i < days.len() ==> {
            &&& (#[trigger] days[i]).medicines@ == due_at(schedules, medicines, days[i].time@)
            &&& days[i].medicines@.len() > 0
            &&& days[i].taken is None
        }
}

/// Nothing is due at a time that no entry has.
pub proof fn lemma_due_at_unused_time<N>(
    schedules: Seq<MedicineSchedule<N>>,
    medicines: Seq<Option<Medicine<N>>>,
    time: Seq<char>,
)
    requires
        forall|k: int| 0 <= k < schedules.len() ==> (#[trigger] schedules[k]).time@ != time,
    ensures
        due_at(schedules, medicines, time) == Seq::<(Option<Medicine<N>>, N)>::empty(),
    decreases schedules.len(),
{
    if schedules.len() > 0 {
        let front = schedules.drop_last();
        assert(schedules[schedules.len() - 1].time@ != time);
        assert forall|k: int| 0 <= k < front.len() implies (#[trigger] front[k]).time@ != time by {
            assert(front[k] == schedules[k]);
        }
        lemma_due_at_unused_time(front, medicines, time);
    }
}

/// What is due at a time depends only on the medicines found for the entries
/// that there are.
pub proof fn lemma_due_at_ignores_later_medicines<N>(
    schedules: Seq<MedicineSchedule<N>>,
    a: Seq<Option<Medicine<N>>>,
    b: Seq<Option<Medicine<N>>>,
    time: Seq<char>,
)
    requires
        schedules.len() <= a.len(),
        schedules.len() <= b.len(),
        forall|k: int| 0 <= k < schedules.len() ==> a[k] == b[k],
    ensures
        due_at(schedules, a, time) == due_at(schedules, b, time),
    decreases schedules.len(),
{
    if schedules.len() > 0 {
        lemma_due_at_ignores_later_medicines(schedules.drop_last(), a, b, time);
    }
}

/// What one more entry adds to what is due at `time`.
proof fn lemma_due_at_step<N>(
    schedules: Seq<MedicineSchedule<N>>,
    medicines: Seq<Option<Medicine<N>>>,
    i: int,
    time: Seq<char>,
)
    requires
        0 <= i < schedules.len(),
        schedules.len() == medicines.len(),
    ensures
        due_at(schedules.take(i + 1), medicines.take(i + 1), time) == if schedules[i].time@
            == time {
            due_at(schedules.take(i), medicines.take(i), time).push(
                (medicines[i], schedules[i].amount),
            )
        } else {
            due_at(schedules.take(i), medicines.take(i), time)
        },
{
    let s1 = schedules.take(i + 1);
    assert(s1.drop_last() =~= schedules.take(i));
    assert(s1[i] == schedules[i]);
    assert(medicines.take(i + 1)[i] == medicines[i]);
    lemma_due_at_ignores_later_medicines(
        schedules.take(i),
        medicines.take(i + 1),
        medicines.take(i),
        time,
    );
}

/// Every entry is due at its time, with the medicine found for it and its
/// amount.
pub proof fn lemma_due_at_has_each_entry<N>(
    schedules: Seq<MedicineSchedule<N>>,
    medicines: Seq<Option<Medicine<N>>>,
    k: int,
)
    requires
        0 <= k < schedules.len(),
    ensures
        due_at(schedules, medicines, schedules[k].time@).contains(
            (medicines[k], schedules[k].amount),
        ),
    decreases schedules.len(),
{
    let t = schedules[k].time@;
    let all = due_at(schedules, medicines, t);
    let n = schedules.len() - 1;
    if k == n {
        assert(all[all.len() - 1] == (medicines[k], schedules[k].amount));
    } else {
        let front = schedules.drop_last();
        assert(front[k] == schedules[k]);
        lemma_due_at_has_each_entry(front, medicines, k);
        let before = due_at(front, medicines, t);
        let j = choose|j: int|
            0 <= j < before.len() && before[j] == (medicines[k], schedules[k].amount);
        assert(all[j] == before[j]);
    }
}

/// No entry is lost from the view of a day, and none loses its amount: each
/// schedule entry appears under its time with its amount, beside the medicine
/// found for it or beside `None` where the medicine it names is missing.
pub proof fn law_every_entry_is_in_the_view<N>(
    schedules: Seq<MedicineSchedule<N>>,
    medicines: Seq<Option<Medicine<N>>>,
    days: Seq<DailySchedule<N>>,
    k: int,
)
    requires
        is_daily_view(schedules, medicines, days),
        0 <= k < schedules.len(),
    ensures
        exists|i: int|
            0 <= i < days.len() && (#[trigger] days[i]).time@ == schedules[k].time@
                && days[i].medicines@.contains((medicines[k], schedules[k].amount)),
{
    assert(has_time(days, schedules[k].time@));
    let i = choose|i: int| 0 <= i < days.len() && (#[trigger] days[i]).time@ == schedules[k].time@;
    lemma_due_at_has_each_entry(schedules, medicines, k);
    assert(days[i].medicines@ == due_at(schedules, medicines, days[i].time@));
}

/// The texts of `s` in strictly ascending order.
pub open spec fn is_strictly_ascending(s: Seq<Seq<char>>) -> bool {
    forall|i: int, j: int| #![trigger s[i], s[j]] 0 <= i < j < s.len() ==> text_lt(s[i], s[j])
}

/// Two strictly ascending sequences of the same texts are the same sequence.
pub proof fn lemma_ascending_texts_are_unique(x: Seq<Seq<char>>, y: Seq<Seq<char>>)
    requires
        is_strictly_ascending(x),
        is_strictly_ascending(y),
        forall|i: int| 0 <= i < x.len() ==> y.contains(#[trigger] x[i]),
        forall|j: int| 0 <= j < y.len() ==> x.contains(#[trigger] y[j]),
    ensures
        x == y,
    decreases x.len(),
{
    if x.len() == 0 {
        if y.len() > 0 {
            assert(x.contains(y[0]));
        }
        assert(x =~= y);
    } else {
        let top = x.last();
        assert(y.contains(x[x.len() - 1]));
        let at = choose|j: int| 0 <= j < y.len() && y[j] == top;
        assert(x.contains(y[y.len() - 1]));
        let back = choose|i: int| 0 <= i < x.len() && x[i] == y.last();
        lemma_text_trichotomy(top, y.last());
        if at < y.len() - 1 {
            assert(text_lt(y[at], y[y.len() - 1]));
        }
        if back < x.len() - 1 {
            assert(text_lt(x[back], x[x.len() - 1]));
        }
        assert(y.last() == top);
        let xs = x.drop_last();
        let ys = y.drop_last();
        assert forall|i: int| 0 <= i < xs.len() implies ys.contains(#[trigger] xs[i]) by {
            assert(xs[i] == x[i]);
            assert(y.contains(x[i]));
            let j = choose|j: int| 0 <= j < y.len() && y[j] == x[i];
            assert(text_lt(x[i], x[x.len() - 1]));
            lemma_text_trichotomy(x[i], top);
            assert(j < y.len() - 1);
            assert(ys[j] == xs[i]);
        }
        assert forall|j: int| 0 <= j < ys.len() implies xs.contains(#[trigger] ys[j]) by {
            assert(ys[j] == y[j]);
            assert(x.contains(y[j]));
            let i = choose|i: int| 0 <= i < x.len() && x[i] == y[j];
            assert(text_lt(y[j], y[y.len() - 1]));
            lemma_text_trichotomy(y[j], top);
            assert(i < x.len() - 1);
            assert(xs[i] == ys[j]);
        }
        assert forall|i: int, j: int|
            #![trigger xs[i], xs[j]]
            0 <= i < j < xs.len() implies text_lt(xs[i], xs[j]) by {
            assert(xs[i] == x[i] && xs[j] == x[j]);
        }
        assert forall|i: int, j: int|
            #![trigger ys[i], ys[j]]
            0 <= i < j < ys.len() implies text_lt(ys[i], ys[j]) by {
            assert(ys[i] == y[i] && ys[j] == y[j]);
        }
        lemma_ascending_texts_are_unique(xs, ys);
        assert(x =~= xs.push(top));
        assert(y =~= ys.push(top));
    }
}

/// The times of the entries of a daily view, in their order.
pub open spec fn times_of<N>(days: Seq<DailySchedule<N>>) -> Seq<Seq<char>> {
    Seq::new(days.len(), |i: int| days[i].time@)
}

/// The view of a day is determined by the schedules and the medicines found:
/// two views of the same have the same times in the same order, and under
/// each time the same medicines and amounts.
pub proof fn law_daily_view_is_unique<N>(
    schedules: Seq<MedicineSchedule<N>>,
    medicines: Seq<Option<Medicine<N>>>,
    a: Seq<DailySchedule<N>>,
    b: Seq<DailySchedule<N>>,
)
    requires
        is_daily_view(schedules, medicines, a),
        is_daily_view(schedules, medicines, b),
    ensures
        a.len() == b.len(),
        forall|i: int|
            0 <= i < a.len() ==> {
                &&& (#[trigger] a[i]).time@ == b[i].time@
                &&& a[i].medicines@ == b[i].medicines@
                &&& a[i].taken == b[i].taken
            },
{
    let ta = times_of(a);
    let tb = times_of(b);
    assert forall|i: int| 0 <= i < ta.len() implies tb.contains(#[trigger] ta[i]) by {
        lemma_view_time_occurs(schedules, medicines, a, b, i);
        let j = choose|j: int| 0 <= j < b.len() && (#[trigger] b[j]).time@ == a[i].time@;
        assert(tb[j] == ta[i]);
    }
    assert forall|j: int| 0 <= j < tb.len() implies ta.contains(#[trigger] tb[j]) by {
        lemma_view_time_occurs(schedules, medicines, b, a, j);
        let i = choose|i: int| 0 <= i < a.len() && (#[trigger] a[i]).time@ == b[j].time@;
        assert(ta[i] == tb[j]);
    }
    assert(is_strictly_ascending(ta)) by {
        assert forall|i: int, j: int|
            #![trigger ta[i], ta[j]]
            0 <= i < j < ta.len() implies text_lt(ta[i], ta[j]) by {
            assert(text_lt(a[i].time@, a[j].time@));
        }
    }
    assert(is_strictly_ascending(tb)) by {
        assert forall|i: int, j: int|
            #![trigger tb[i], tb[j]]
            0 <= i < j < tb.len() implies text_lt(tb[i], tb[j]) by {
            assert(text_lt(b[i].time@, b[j].time@));
        }
    }
    lemma_ascending_texts_are_unique(ta, tb);
    assert forall|i: int| 0 <= i < a.len() implies {
        &&& (#[trigger] a[i]).time@ == b[i].time@
        &&& a[i].medicines@ == b[i].medicines@
        &&& a[i].taken == b[i].taken
    } by {
        assert(ta[i] == tb[i]);
        assert(b[i].medicines@ == due_at(schedules, medicines, b[i].time@));
    }
}

/// A time that one view of a day has, every view of that day has.
proof fn lemma_view_time_occurs<N>(
    schedules: Seq<MedicineSchedule<N>>,
    medicines: Seq<Option<Medicine<N>>>,
    a: Seq<DailySchedule<N>>,
    b: Seq<DailySchedule<N>>,
    i: int,
)
    requires
        is_daily_view(schedules, medicines, a),
        is_daily_view(schedules, medicines, b),
        0 <= i < a.len(),
    ensures
        has_time(b, a[i].time@),
{
    let t = a[i].time@;
    assert(a[i].medicines@.len() > 0);
    if forall|k: int| 0 <= k < schedules.len() ==> (#[trigger] schedules[k]).time@ != t {
        lemma_due_at_unused_time(schedules, medicines, t);
    }
    let k = choose|k: int| 0 <= k < schedules.len() && (#[trigger] schedules[k]).time@ == t;
    assert(has_time(b, schedules[k].time@));
}

/// Groups `schedules` by their time of day. `medicines` holds, for each entry
/// at the same position, the medicine that was found for it.
pub fn build_daily_schedule<N: Copy>(
    schedules: Vec<MedicineSchedule<N>>,
    medicines: Vec<Option<Medicine<N>>>,
) -> (days: Vec<DailySchedule<N>>)
    requires
        schedules@.len() == medicines@.len(),
    ensures
        is_daily_view(schedules@, medicines@, days@),
{
    let mut days: Vec<DailySchedule<N>> = Vec::new();
    let ghost found = medicines@;
    let mut at: usize = 0;
    let count = schedules.len();
    proof {
        assert(schedules@.take(0) =~= Seq::<MedicineSchedule<N>>::empty());
    }
    for medicine in it: medicines.into_iter()
        invariant
            it.seq() == found,
            at == it.index(),
            count == schedules@.len(),
            schedules@.len() == found.len(),
            is_daily_view(
                schedules@.take(it.index() as int),
                found.take(it.index() as int),
                days@,
            ),
    {
        let ghost i = it.index() as int;
        let ghost seen = schedules@.take(i);
        let ghost seen_found = found.take(i);
        let ghost old_days = days@;
        let schedule = &schedules[at];
        let ghost t = schedule.time@;
        let pair = (medicine, schedule.amount);
        assert(medicine == found[i]);
        let mut g: usize = 0;
        while g < days.len() && str_lt(days[g].time.as_str(), schedule.time.as_str())
            invariant
                g <= days@.len(),
                days@ == old_days,
                t == schedule.time@,
                forall|j: int| 0 <= j < g ==> text_lt((#[trigger] days@[j]).time@, t),
            decreases days@.len() - g,
        {
            g = g + 1;
        }
        let same = g < days.len() && !str_lt(schedule.time.as_str(), days[g].time.as_str());
        proof {
            if g < old_days.len() {
                lemma_text_trichotomy(t, old_days[g as int].time@);
            }
            assert forall|time: Seq<char>|
                #![trigger due_at(schedules@.take(i + 1), found.take(i + 1), time)]
                due_at(schedules@.take(i + 1), found.take(i + 1), time) == if t == time {
                    due_at(seen, seen_found, time).push(pair)
                } else {
                    due_at(seen, seen_found, time)
                } by {
                lemma_due_at_step(schedules@, found, i, time);
            }
            assert forall|k: int| 0 <= k < i + 1 implies #[trigger] schedules@.take(i + 1)[k]
                == schedules@[k] by {}
        }
        if same {
            let mut day = days.remove(g);
            day.medicines.push(pair);
            proof {
                assert(day.time@ == t);
                assert(day.medicines@ == due_at(seen, seen_found, t).push(pair));
            }
            days.insert(g, day);
            proof {
                let new_days = days@;
                assert(new_days.len() == old_days.len());
                assert forall|j: int| 0 <= j < new_days.len() implies (#[trigger] new_days[j]).time@
                    == old_days[j].time@ && new_days[j].taken == old_days[j].taken && (j != g
                    ==> new_days[j] == old_days[j]) by {}
                assert forall|k: int| 0 <= k < i + 1 implies has_time(
                    new_days,
                    (#[trigger] schedules@.take(i + 1)[k]).time@,
                ) by {
                    if k < i {
                        assert(seen[k] == schedules@[k]);
                        assert(has_time(old_days, seen[k].time@));
                        let j = choose|j: int|
                            0 <= j < old_days.len() && (#[trigger] old_days[j]).time@
                                == seen[k].time@;
                        assert(new_days[j].time@ == seen[k].time@);
                    } else {
                        assert(new_days[g as int].time@ == t);
                    }
                }
                assert forall|j: int| 0 <= j < new_days.len() implies {
                    &&& (#[trigger] new_days[j]).medicines@ == due_at(
                        schedules@.take(i + 1),
                        found.take(i + 1),
                        new_days[j].time@,
                    )
                    &&& new_days[j].medicines@.len() > 0
                    &&& new_days[j].taken is None
                } by {
                    if j != g {
                        assert(new_days[j] == old_days[j]);
                        if j < g {
                            assert(text_lt(old_days[j].time@, old_days[g as int].time@));
                        } else {
                            assert(text_lt(old_days[g as int].time@, old_days[j].time@));
                        }
                        lemma_text_trichotomy(old_days[j].time@, t);
                    }
                }
                assert(is_daily_view(schedules@.take(i + 1), found.take(i + 1), new_days));
            }
        } else {
            let mut due: Vec<(Option<Medicine<N>>, N)> = Vec::new();
            due.push(pair);
            let day = DailySchedule::new(schedule.time.clone(), due);
            days.insert(g, day);
            proof {
                let new_days = days@;
                assert forall|j: int| 0 <= j < old_days.len() implies (#[trigger] old_days[j]).time@
                    != t by {
                    if j < g {
                        lemma_text_trichotomy(old_days[j].time@, t);
                    } else {
                        if j > g {
                            assert(text_lt(old_days[g as int].time@, old_days[j].time@));
                            lemma_text_lt_transitive(t, old_days[g as int].time@, old_days[j].time@);
                        }
                        lemma_text_trichotomy(t, old_days[j].time@);
                    }
                }
                assert forall|k: int| 0 <= k < seen.len() implies (#[trigger] seen[k]).time@
                    != t by {
                    assert(has_time(old_days, seen[k].time@));
                }
                lemma_due_at_unused_time(seen, seen_found, t);
                assert(day.medicines@ =~= due_at(seen, seen_found, t).push(pair));
                assert forall|a: int, b: int|
                    #![trigger new_days[a], new_days[b]]
                    0 <= a < b < new_days.len() implies text_lt(
                    new_days[a].time@,
                    new_days[b].time@,
                ) by {
                    if b < g {
                        assert(new_days[a] == old_days[a] && new_days[b] == old_days[b]);
                    } else if b == g {
                        assert(new_days[a] == old_days[a]);
                    } else if a < g {
                        assert(new_days[a] == old_days[a] && new_days[b] == old_days[b - 1]);
                    } else if a == g {
                        assert(new_days[b] == old_days[b - 1]);
                        if b - 1 > g {
                            assert(text_lt(old_days[g as int].time@, old_days[b - 1].time@));
                            lemma_text_lt_transitive(
                                t,
                                old_days[g as int].time@,
                                old_days[b - 1].time@,
                            );
                        }
                    } else {
                        assert(new_days[a] == old_days[a - 1] && new_days[b] == old_days[b - 1]);
                    }
                }
                assert forall|k: int| 0 <= k < i + 1 implies has_time(
                    new_days,
                    (#[trigger] schedules@.take(i + 1)[k]).time@,
                ) by {
                    if k < i {
                        assert(seen[k] == schedules@[k]);
                        assert(has_time(old_days, seen[k].time@));
                        let j = choose|j: int|
                            0 <= j < old_days.len() && (#[trigger] old_days[j]).time@
                                == seen[k].time@;
                        if j < g {
                            assert(new_days[j] == old_days[j]);
                        } else {
                            assert(new_days[j + 1] == old_days[j]);
                        }
                    } else {
                        assert(new_days[g as int].time@ == t);
                    }
                }
                assert forall|j: int| 0 <= j < new_days.len() implies {
                    &&& (#[trigger] new_days[j]).medicines@ == due_at(
                        schedules@.take(i + 1),
                        found.take(i + 1),
                        new_days[j].time@,
                    )
                    &&& new_days[j].medicines@.len() > 0
                    &&& new_days[j].taken is None
                } by {
                    if j < g {
                        assert(new_days[j] == old_days[j]);
                    } else if j > g {
                        assert(new_days[j] == old_days[j - 1]);
                    }
                }
                assert(is_daily_view(schedules@.take(i + 1), found.take(i + 1), new_days));
            }
        }
        at = at + 1;
    }
    proof {
        assert(schedules@.take(found.len() as int) =~= schedules@);
        assert(found.take(found.len() as int) =~= found);
    }
    days
}

} // verus!
