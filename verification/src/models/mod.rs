//! The records of the tracker and the forms in which callers hand them in.

pub mod dosage_history;
pub mod medicine;
pub mod schedule;

pub use self::dosage_history::{ApiDosageHistory, DosageHistory, DosageHistoryError};
pub use self::medicine::{ApiMedicine, Medicine, MedicineId};
pub use self::schedule::{
    ApiMedicineSchedule, DailySchedule, DailyScheduleWithDate, MedicineSchedule,
};
