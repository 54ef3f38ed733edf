//! The daily dosing schedule: one entry per medicine and time of day, and the
//! view of a day that groups the entries by time.

use crate::decimal::{time_key, time_key_of};
use crate::ident::{is_random_uuid_text, new_random_id};
use crate::models::medicine::{Medicine, MedicineId};
use crate::order::NaturalOrder;
use crate::text::{lemma_text_le_transitive, lemma_text_trichotomy, str_lt, text_le, text_lt};
use core::cmp::Ordering;
use vstd::prelude::*;

verus! {

/// One entry of the schedule: `amount` of the medicine `medicine_id`, to be
/// taken every day at `time`. The medicine is named only: nothing ensures that
/// it exists.
#[derive(Debug, Clone, PartialEq)]
pub struct MedicineSchedule<N> {
    pub id: String,
    pub time: String,
    pub medicine_id: MedicineId,
    pub description: String,
    pub amount: N,
}

/// What a [`MedicineSchedule`] holds, as plain values.
pub struct MedicineScheduleView<N> {
    pub id: Seq<char>,
    pub time: Seq<char>,
    pub medicine_id: Seq<char>,
    pub description: Seq<char>,
    pub amount: N,
}

impl<N> View for MedicineSchedule<N> {
    type V = MedicineScheduleView<N>;

    open spec fn view(&self) -> MedicineScheduleView<N> {
        MedicineScheduleView {
            id: self.id@,
            time: self.time@,
            medicine_id: self.medicine_id@,
            description: self.description@,
            amount: self.amount,
        }
    }
}

impl<N: Copy> MedicineSchedule<N> {
    /// A new entry under a fresh identifier, without a description.
    pub fn new(time: String, medicine_id: MedicineId, amount: N) -> (s: Self)
        ensures
            is_random_uuid_text(s.id@),
            s@ == (MedicineScheduleView {
                id: s.id@,
                time: time@,
                medicine_id: medicine_id@,
                description: Seq::empty(),
                amount,
            }),
    {
        MedicineSchedule {
            id: new_random_id(),
            time,
            medicine_id,
            description: String::new(),
            amount,
        }
    }

    /// An entry under the identifier `id`, without a description.
    pub fn with_id(id: String, time: String, medicine_id: MedicineId, amount: N) -> (s: Self)
        ensures
            s@ == (MedicineScheduleView {
                id: id@,
                time: time@,
                medicine_id: medicine_id@,
                description: Seq::empty(),
                amount,
            }),
    {
        MedicineSchedule { id, time, medicine_id, description: String::new(), amount }
    }
}

impl<N> NaturalOrder for MedicineSchedule<N> {
    /// Entries are listed by ascending time, the time read as the integer that
    /// its digits write (`08:00` as 800). A time that is no such integer counts
    /// as 0.
    open spec fn precedes(&self, other: &Self) -> bool {
        time_key_of(self.time@) <= time_key_of(other.time@)
    }

    fn stands_before(&self, other: &Self) -> (r: bool) {
        time_key(self.time.as_str()) <= time_key(other.time.as_str())
    }

    proof fn lemma_total(a: Self, b: Self) {
    }

    proof fn lemma_transitive(a: Self, b: Self, c: Self) {
    }
}

impl<N: PartialEq> PartialOrd for MedicineSchedule<N> {
    /// Entries compare by the integers that their times write.
    fn partial_cmp(&self, other: &Self) -> (r: Option<Ordering>) {
        let mine = time_key(self.time.as_str());
        let theirs = time_key(other.time.as_str());
        if mine < theirs {
            Some(Ordering::Less)
        } else if mine > theirs {
            Some(Ordering::Greater)
        } else {
            Some(Ordering::Equal)
        }
    }
}

impl<N: PartialEq> vstd::std_specs::cmp::PartialOrdSpecImpl for MedicineSchedule<N> {
    open spec fn obeys_partial_cmp_spec() -> bool {
        true
    }

    open spec fn partial_cmp_spec(&self, other: &Self) -> Option<Ordering> {
        if time_key_of(self.time@) < time_key_of(other.time@) {
            Some(Ordering::Less)
        } else if time_key_of(self.time@) > time_key_of(other.time@) {
            Some(Ordering::Greater)
        } else {
            Some(Ordering::Equal)
        }
    }
}

/// A schedule entry as a caller hands it in: without an identifier.
#[derive(Debug, Clone)]
pub struct ApiMedicineSchedule<N> {
    pub time: String,
    pub medicine_id: MedicineId,
    pub amount: N,
}

impl<N: Copy> ApiMedicineSchedule<N> {
    /// The entry with these values under a fresh identifier.
    pub fn to_schedule(&self) -> (s: MedicineSchedule<N>)
        ensures
            is_random_uuid_text(s.id@),
            s@ == (MedicineScheduleView {
                id: s.id@,
                time: self.time@,
                medicine_id: self.medicine_id@,
                description: Seq::empty(),
                amount: self.amount,
            }),
    {
        MedicineSchedule::new(self.time.clone(), self.medicine_id.clone(), self.amount)
    }

    /// The entry with these values under the identifier `id`.
    pub fn to_schedule_with_id(&self, id: String) -> (s: MedicineSchedule<N>)
        ensures
            s@ == (MedicineScheduleView {
                id: id@,
                time: self.time@,
                medicine_id: self.medicine_id@,
                description: Seq::empty(),
                amount: self.amount,
            }),
    {
        MedicineSchedule::with_id(id, self.time.clone(), self.medicine_id.clone(), self.amount)
    }
}

/// What is due at one time of day: for each schedule entry at that time the
/// medicine, if it exists, and the amount.
#[derive(Debug, Clone, PartialEq)]
pub struct DailySchedule<N> {
    pub time: String,
    pub medicines: Vec<(Option<Medicine<N>>, N)>,
    pub taken: Option<bool>,
}

impl<N> DailySchedule<N> {
    /// What is due at `time`, not yet marked as taken or missed.
    pub fn new(time: String, medicines: Vec<(Option<Medicine<N>>, N)>) -> (d: Self)
        ensures
            d.time == time,
            d.medicines == medicines,
            d.taken is None,
    {
        DailySchedule { time, medicines, taken: None }
    }
}

impl<N> NaturalOrder for DailySchedule<N> {
    /// The times of a day are listed in the order of their text.
    open spec fn precedes(&self, other: &Self) -> bool {
        text_le(self.time@, other.time@)
    }

    fn stands_before(&self, other: &Self) -> (r: bool) {
        !str_lt(other.time.as_str(), self.time.as_str())
    }

    proof fn lemma_total(a: Self, b: Self) {
        lemma_text_trichotomy(a.time@, b.time@);
    }

    proof fn lemma_transitive(a: Self, b: Self, c: Self) {
        lemma_text_le_transitive(a.time@, b.time@, c.time@);
    }
}

impl<N: PartialEq> PartialOrd for DailySchedule<N> {
    /// The times of a day compare by their text.
    fn partial_cmp(&self, other: &Self) -> (r: Option<Ordering>) {
        if str_lt(self.time.as_str(), other.time.as_str()) {
            Some(Ordering::Less)
        } else if str_lt(other.time.as_str(), self.time.as_str()) {
            Some(Ordering::Greater)
        } else {
            Some(Ordering::Equal)
        }
    }
}

impl<N: PartialEq> vstd::std_specs::cmp::PartialOrdSpecImpl for DailySchedule<N> {
    open spec fn obeys_partial_cmp_spec() -> bool {
        true
    }

    open spec fn partial_cmp_spec(&self, other: &Self) -> Option<Ordering> {
        if text_lt(self.time@, other.time@) {
            Some(Ordering::Less)
        } else if text_lt(other.time@, self.time@) {
            Some(Ordering::Greater)
        } else {
            Some(Ordering::Equal)
        }
    }
}

/// The schedule of the day `date`.
#[derive(Debug, Clone, PartialEq)]
pub struct DailyScheduleWithDate<N> {
    pub date: String,
    pub schedules: Vec<DailySchedule<N>>,
}

impl<N> DailyScheduleWithDate<N> {
    /// The schedule `schedules` under the date `date`.
    pub fn new(date: String, schedules: Vec<DailySchedule<N>>) -> (d: Self)
        ensures
            d.date == date,
            d.schedules == schedules,
    {
        DailyScheduleWithDate { date, schedules }
    }
}

impl<N> NaturalOrder for DailyScheduleWithDate<N> {
    /// Days are listed in the order of the text of their date.
    open spec fn precedes(&self, other: &Self) -> bool {
        text_le(self.date@, other.date@)
    }

    fn stands_before(&self, other: &Self) -> (r: bool) {
        !str_lt(other.date.as_str(), self.date.as_str())
    }

    proof fn lemma_total(a: Self, b: Self) {
        lemma_text_trichotomy(a.date@, b.date@);
    }

    proof fn lemma_transitive(a: Self, b: Self, c: Self) {
        lemma_text_le_transitive(a.date@, b.date@, c.date@);
    }
}

impl<N: PartialEq> PartialOrd for DailyScheduleWithDate<N> {
    /// Days compare by the text of their date.
    fn partial_cmp(&self, other: &Self) -> (r: Option<Ordering>) {
        if str_lt(self.date.as_str(), other.date.as_str()) {
            Some(Ordering::Less)
        } else if str_lt(other.date.as_str(), self.date.as_str()) {
            Some(Ordering::Greater)
        } else {
            Some(Ordering::Equal)
        }
    }
}

impl<N: PartialEq> vstd::std_specs::cmp::PartialOrdSpecImpl for DailyScheduleWithDate<N> {
    open spec fn obeys_partial_cmp_spec() -> bool {
        true
    }

    open spec fn partial_cmp_spec(&self, other: &Self) -> Option<Ordering> {
        if text_lt(self.date@, other.date@) {
            Some(Ordering::Less)
        } else if text_lt(other.date@, self.date@) {
            Some(Ordering::Greater)
        } else {
            Some(Ordering::Equal)
        }
    }
}

} // verus!
