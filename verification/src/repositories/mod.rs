//! One repository per kind of record: a namespace of the key-value store and
//! the operations on it.

pub mod connection;
pub mod dosage_history_repository;
pub mod medicine_repository;
pub mod schedule_repository;

pub use self::connection::ConnectionError;
pub use self::dosage_history_repository::DosageHistoryRepository;
pub use self::medicine_repository::MedicineRepository;
pub use self::schedule_repository::MedicineScheduleRepository;
