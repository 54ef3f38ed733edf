//! Medicines and their stock.

use crate::ident::{is_random_uuid_text, new_random_id};
use crate::order::NaturalOrder;
use crate::text::{lemma_text_le_transitive, lemma_text_trichotomy, str_lt, text_le, text_lt};
use core::cmp::Ordering;
use vstd::prelude::*;
use vstd::std_specs::ops::AddSpec;
use vstd::string::to_string_from_display_ensures;

verus! {

/// The identifier of a medicine.
pub type MedicineId = String;

/// A medicine and what is in stock of it. `N` is the number type of doses and
/// stock, which this library carries and adds but never inspects.
#[derive(Debug, Clone, PartialEq)]
pub struct Medicine<N> {
    pub id: MedicineId,
    pub name: String,
    pub dose: N,
    pub unit: String,
    pub stock: N,
}

/// What a [`Medicine`] holds, as plain values.
pub struct MedicineView<N> {
    pub id: Seq<char>,
    pub name: Seq<char>,
    pub dose: N,
    pub unit: Seq<char>,
    pub stock: N,
}

impl<N> View for Medicine<N> {
    type V = MedicineView<N>;

    open spec fn view(&self) -> MedicineView<N> {
        MedicineView {
            id: self.id@,
            name: self.name@,
            dose: self.dose,
            unit: self.unit@,
            stock: self.stock,
        }
    }
}

/// The text by which a medicine is shown: its name, then dose and unit in
/// round brackets.
pub open spec fn medicine_label(name: Seq<char>, dose_text: Seq<char>, unit: Seq<char>) -> Seq<
    char,
> {
    name + seq![' ', '('] + dose_text + seq![' '] + unit + seq![')']
}

impl<N: Copy> Medicine<N> {
    /// A new medicine under a fresh identifier.
    pub fn new(name: String, dose: N, unit: String, stock: N) -> (m: Self)
        ensures
            is_random_uuid_text(m.id@),
            m@ == (MedicineView { id: m.id@, name: name@, dose, unit: unit@, stock }),
    {
        Medicine { id: new_random_id(), name, dose, unit, stock }
    }

    /// A medicine under the identifier `id`.
    pub fn with_id(id: MedicineId, name: String, dose: N, unit: String, stock: N) -> (m: Self)
        ensures
            m@ == (MedicineView { id: id@, name: name@, dose, unit: unit@, stock }),
    {
        Medicine { id, name, dose, unit, stock }
    }

    /// The same medicine with `amount` added to its stock.
    ///
    /// The sum is that of `N`: for the integer types it is the exact sum, and
    /// the call is allowed where that sum fits the type.
    pub fn add_stock(&self, amount: N) -> (m: Self) where N: core::ops::Add<Output = N>
        requires
            self.stock.add_req(amount),
        ensures
            m.id == self.id,
            m.name == self.name,
            m.dose == self.dose,
            m.unit == self.unit,
            N::obeys_add_spec() ==> m.stock == self.stock.add_spec(amount),
    {
        Medicine {
            id: self.id.clone(),
            name: self.name.clone(),
            dose: self.dose,
            unit: self.unit.clone(),
            stock: self.stock + amount,
        }
    }

    /// The medicine as text: `name (dose unit)`, with the dose as `N` prints it.
    pub fn to_string(&self) -> (s: String) where N: core::fmt::Display
        ensures
            exists|dose_text: String|
                to_string_from_display_ensures::<N>(&self.dose, dose_text) && s@ == medicine_label(
                    self.name@,
                    dose_text@,
                    self.unit@,
                ),
    {
        let dose_text = self.dose.to_string();
        let mut s = self.name.clone();
        proof {
            reveal_strlit(" (");
            reveal_strlit(" ");
            reveal_strlit(")");
        }
        s.append(" (");
        s.append(dose_text.as_str());
        s.append(" ");
        s.append(self.unit.as_str());
        s.append(")");
        assert(s@ =~= medicine_label(self.name@, dose_text@, self.unit@));
        s
    }
}

impl<N> NaturalOrder for Medicine<N> {
    /// Medicines are listed by ascending name.
    open spec fn precedes(&self, other: &Self) -> bool {
        text_le(self.name@, other.name@)
    }

    fn stands_before(&self, other: &Self) -> (r: bool) {
        !str_lt(other.name.as_str(), self.name.as_str())
    }

    proof fn lemma_total(a: Self, b: Self) {
        lemma_text_trichotomy(a.name@, b.name@);
    }

    proof fn lemma_transitive(a: Self, b: Self, c: Self) {
        lemma_text_le_transitive(a.name@, b.name@, c.name@);
    }
}

impl<N: PartialEq> PartialOrd for Medicine<N> {
    /// Medicines compare by their names.
    fn partial_cmp(&self, other: &Self) -> (r: Option<Ordering>) {
        if str_lt(self.name.as_str(), other.name.as_str()) {
            Some(Ordering::Less)
        } else if str_lt(other.name.as_str(), self.name.as_str()) {
            Some(Ordering::Greater)
        } else {
            Some(Ordering::Equal)
        }
    }
}

impl<N: PartialEq> vstd::std_specs::cmp::PartialOrdSpecImpl for Medicine<N> {
    open spec fn obeys_partial_cmp_spec() -> bool {
        true
    }

    open spec fn partial_cmp_spec(&self, other: &Self) -> Option<Ordering> {
        if text_lt(self.name@, other.name@) {
            Some(Ordering::Less)
        } else if text_lt(other.name@, self.name@) {
            Some(Ordering::Greater)
        } else {
            Some(Ordering::Equal)
        }
    }
}

/// A medicine as a caller hands it in: without an identifier.
#[derive(Debug, Clone)]
pub struct ApiMedicine<N> {
    pub name: String,
    pub dose: N,
    pub unit: String,
    pub stock: N,
}

impl<N: Copy> ApiMedicine<N> {
    /// The medicine with these values under a fresh identifier.
    pub fn to_medicine(&self) -> (m: Medicine<N>)
        ensures
            is_random_uuid_text(m.id@),
            m@ == (MedicineView {
                id: m.id@,
                name: self.name@,
                dose: self.dose,
                unit: self.unit@,
                stock: self.stock,
            }),
    {
        Medicine::new(self.name.clone(), self.dose, self.unit.clone(), self.stock)
    }

    /// The medicine with these values under the identifier `id`.
    pub fn to_medicine_with_id(&self, id: MedicineId) -> (m: Medicine<N>)
        ensures
            m@ == (MedicineView {
                id: id@,
                name: self.name@,
                dose: self.dose,
                unit: self.unit@,
                stock: self.stock,
            }),
    {
        Medicine::with_id(id, self.name.clone(), self.dose, self.unit.clone(), self.stock)
    }
}

} // verus!
