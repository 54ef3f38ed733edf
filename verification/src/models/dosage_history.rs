//! The history of doses taken.

use crate::decimal::{time_key, time_key_of};
use crate::models::medicine::MedicineId;
use crate::order::NaturalOrder;
use crate::text::{lemma_text_lt_transitive, lemma_text_trichotomy, str_lt, text_lt};
use core::cmp::Ordering;
use vstd::prelude::*;

verus! {

/// One dose taken: `amount` of the medicine `medicine_id` on the day `date`
/// (`YYYY-MM-DD`) at `time` (`HH:MM`). The medicine is named only: nothing
/// ensures that it exists.
#[derive(Debug, Clone, PartialEq)]
pub struct DosageHistory<N> {
    pub id: String,
    pub date: String,
    pub time: String,
    pub medicine_id: MedicineId,
    pub description: String,
    pub amount: N,
}

/// What a [`DosageHistory`] holds, as plain values.
pub struct DosageHistoryView<N> {
    pub id: Seq<char>,
    pub date: Seq<char>,
    pub time: Seq<char>,
    pub medicine_id: Seq<char>,
    pub description: Seq<char>,
    pub amount: N,
}

impl<N> View for DosageHistory<N> {
    type V = DosageHistoryView<N>;

    open spec fn view(&self) -> DosageHistoryView<N> {
        DosageHistoryView {
            id: self.id@,
            date: self.date@,
            time: self.time@,
            medicine_id: self.medicine_id@,
            description: self.description@,
            amount: self.amount,
        }
    }
}

impl<N> DosageHistory<N> {
    /// A dose under the identifier `id`, without a description.
    pub fn with_id(id: String, date: String, time: String, medicine_id: MedicineId, amount: N) -> (h:
        Self)
        ensures
            h@ == (DosageHistoryView {
                id: id@,
                date: date@,
                time: time@,
                medicine_id: medicine_id@,
                description: Seq::empty(),
                amount,
            }),
    {
        DosageHistory { id, date, time, medicine_id, description: String::new(), amount }
    }

    /// A dose under the identifier `id`, with a description.
    pub fn with_id_and_description(
        id: String,
        date: String,
        time: String,
        medicine_id: MedicineId,
        description: String,
        amount: N,
    ) -> (h: Self)
        ensures
            h@ == (DosageHistoryView {
                id: id@,
                date: date@,
                time: time@,
                medicine_id: medicine_id@,
                description: description@,
                amount,
            }),
    {
        DosageHistory { id, date, time, medicine_id, description, amount }
    }

    /// Whether this dose was taken after `other`: on a later day, or on the
    /// same day at a later time.
    pub fn is_after(&self, other: &Self) -> (r: bool)
        ensures
            r == taken_after(self@, other@),
    {
        if str_lt(other.date.as_str(), self.date.as_str()) {
            true
        } else if str_lt(self.date.as_str(), other.date.as_str()) {
            false
        } else {
            proof {
                lemma_text_trichotomy(self.date@, other.date@);
            }
            time_key(self.time.as_str()) > time_key(other.time.as_str())
        }
    }
}

/// `a` was taken after `b`: on a later day, or on the same day at a later
/// time. Days compare as text, times as the integers that their digits write.
pub open spec fn taken_after<N>(a: DosageHistoryView<N>, b: DosageHistoryView<N>) -> bool {
    text_lt(b.date, a.date) || (a.date == b.date && time_key_of(a.time) > time_key_of(b.time))
}

impl<N> NaturalOrder for DosageHistory<N> {
    /// Doses are listed most recent first: by descending date, and within a
    /// day by descending time.
    open spec fn precedes(&self, other: &Self) -> bool {
        !taken_after(other@, self@)
    }

    fn stands_before(&self, other: &Self) -> (r: bool) {
        !other.is_after(self)
    }

    proof fn lemma_total(a: Self, b: Self) {
        lemma_text_trichotomy(a.date@, b.date@);
    }

    proof fn lemma_transitive(a: Self, b: Self, c: Self) {
        lemma_text_trichotomy(a.date@, b.date@);
        lemma_text_trichotomy(b.date@, c.date@);
        lemma_text_trichotomy(a.date@, c.date@);
        if text_lt(a.date@, c.date@) {
            if a.date@ != b.date@ && b.date@ != c.date@ {
                lemma_text_lt_transitive(c.date@, b.date@, a.date@);
            }
        }
    }
}

impl<N: PartialEq> PartialOrd for DosageHistory<N> {
    /// Doses compare by when they were taken: a later dose is the greater.
    fn partial_cmp(&self, other: &Self) -> (r: Option<Ordering>) {
        if self.is_after(other) {
            Some(Ordering::Greater)
        } else if other.is_after(self) {
            Some(Ordering::Less)
        } else {
            Some(Ordering::Equal)
        }
    }
}

impl<N: PartialEq> vstd::std_specs::cmp::PartialOrdSpecImpl for DosageHistory<N> {
    open spec fn obeys_partial_cmp_spec() -> bool {
        true
    }

    open spec fn partial_cmp_spec(&self, other: &Self) -> Option<Ordering> {
        if taken_after(self@, other@) {
            Some(Ordering::Greater)
        } else if taken_after(other@, self@) {
            Some(Ordering::Less)
        } else {
            Some(Ordering::Equal)
        }
    }
}

/// A later day comes first in a listing, whatever the times of day are.
pub proof fn law_later_day_is_listed_first<N>(earlier: DosageHistory<N>, later: DosageHistory<N>)
    requires
        text_lt(earlier.date@, later.date@),
    ensures
        later.precedes(&earlier),
        !earlier.precedes(&later),
{
    lemma_text_trichotomy(earlier.date@, later.date@);
}

/// Why a dose that was handed in is refused.
#[derive(Debug, Clone, Copy, PartialEq, Eq, Structural)]
pub enum DosageHistoryError {
    /// Its date and time do not make a date-time of RFC 3339.
    InvalidDateTime,
}

/// The date-time that a date and a time of day are checked as: the date, a
/// `T`, the time, and `:00Z` for zero seconds in UTC.
pub open spec fn timestamp_text(date: Seq<char>, time: Seq<char>) -> Seq<char> {
    date + seq!['T'] + time + seq![':', '0', '0', 'Z']
}

/// Whether chrono reads `text` as a date-time of RFC 3339.
pub uninterp spec fn rfc3339_accepted(text: Seq<char>) -> bool;

/// The error with which chrono refuses a text.
#[verifier::external_type_specification]
#[verifier::external_body]
pub struct ExParseError(chrono::ParseError);

/// Checks `text` with `chrono::DateTime::parse_from_rfc3339`, and drops the
/// date-time that was read.
///
/// Trusted: the contract only names the verdict. Whether chrono accepts a text
/// depends on the text alone: its grammar, the calendar, leap seconds and
/// offsets.
#[verifier::external_body]
fn check_rfc3339(text: &str) -> (r: Result<(), chrono::ParseError>)
    ensures
        r is Ok == rfc3339_accepted(text@),
{
    chrono::DateTime::parse_from_rfc3339(text).map(|_| ())
}

/// A dose as a caller hands it in: without identifier and description.
#[derive(Debug, Clone)]
pub struct ApiDosageHistory<N> {
    pub date: String,
    pub time: String,
    pub medicine_id: MedicineId,
    pub amount: N,
}

impl<N: Copy> ApiDosageHistory<N> {
    /// The text that is checked for this dose; see [`timestamp_text`].
    pub fn timestamp(&self) -> (text: String)
        ensures
            text@ == timestamp_text(self.date@, self.time@),
    {
        let mut text = self.date.clone();
        proof {
            reveal_strlit("T");
            reveal_strlit(":00Z");
        }
        text.append("T");
        text.append(self.time.as_str());
        text.append(":00Z");
        assert(text@ =~= timestamp_text(self.date@, self.time@));
        text
    }

    /// The dose with these values under `id` and with `description`, where
    /// `checked` is the verdict on its date and time; the error where the
    /// verdict is a refusal.
    pub fn with_verdict(
        &self,
        id: String,
        description: String,
        checked: Result<(), chrono::ParseError>,
    ) -> (r: Result<DosageHistory<N>, DosageHistoryError>)
        ensures
            r is Ok == checked is Ok,
            r matches Ok(h) ==> h@ == (DosageHistoryView {
                id: id@,
                date: self.date@,
                time: self.time@,
                medicine_id: self.medicine_id@,
                description: description@,
                amount: self.amount,
            }),
            r matches Err(e) ==> e == DosageHistoryError::InvalidDateTime,
    {
        match checked {
            Ok(_) => Ok(
                DosageHistory::with_id_and_description(
                    id,
                    self.date.clone(),
                    self.time.clone(),
                    self.medicine_id.clone(),
                    description,
                    self.amount,
                ),
            ),
            Err(_) => Err(DosageHistoryError::InvalidDateTime),
        }
    }

    /// The dose with these values under `id` and with `description`, if its
    /// date and time make a date-time of RFC 3339.
    pub fn to_dosage_history(&self, id: String, description: String) -> (r: Result<
        DosageHistory<N>,
        DosageHistoryError,
    >)
        ensures
            r is Ok == rfc3339_accepted(timestamp_text(self.date@, self.time@)),
            r matches Ok(h) ==> h@ == (DosageHistoryView {
                id: id@,
                date: self.date@,
                time: self.time@,
                medicine_id: self.medicine_id@,
                description: description@,
                amount: self.amount,
            }),
            r matches Err(e) ==> e == DosageHistoryError::InvalidDateTime,
    {
        let text = self.timestamp();
        let checked = check_rfc3339(text.as_str());
        self.with_verdict(id, description, checked)
    }
}

} // verus!
