use medicine_tracker::models::medicine::Medicine;
use medicine_tracker::models::schedule::{
    ApiMedicineSchedule, DailySchedule, DailyScheduleWithDate, MedicineSchedule,
};
use medicine_tracker::order::{sort_naturally, NaturalOrder};

#[test]
fn test_medicine_schedule_new() {
    let schedule =
        MedicineSchedule::new("08:00".to_string(), "medicine-id-123".to_string(), 500.0);

    assert_eq!(schedule.time, "08:00");
    assert_eq!(schedule.medicine_id, "medicine-id-123");
    assert_eq!(schedule.amount, 500.0);
    assert_eq!(schedule.description, "");
    assert!(!schedule.id.is_empty());
}

#[test]
fn test_medicine_schedule_with_id() {
    let id = "schedule-id-456".to_string();
    let schedule = MedicineSchedule::with_id(
        id.clone(),
        "12:00".to_string(),
        "medicine-id-789".to_string(),
        250.0,
    );

    assert_eq!(schedule.id, id);
    assert_eq!(schedule.time, "12:00");
    assert_eq!(schedule.medicine_id, "medicine-id-789");
    assert_eq!(schedule.amount, 250.0);
    assert_eq!(schedule.description, "");
}

#[test]
fn test_medicine_schedule_ordering() {
    let schedule1 = MedicineSchedule::new("08:00".to_string(), "med1".to_string(), 100.0);
    let schedule2 = MedicineSchedule::new("12:00".to_string(), "med2".to_string(), 200.0);
    let schedule3 = MedicineSchedule::new("06:00".to_string(), "med3".to_string(), 300.0);

    let schedules = vec![schedule1.clone(), schedule2.clone(), schedule3.clone()];
    let schedules = sort_naturally(schedules);

    // Should be sorted by time (numerically)
    assert_eq!(schedules[0].time, "06:00");
    assert_eq!(schedules[1].time, "08:00");
    assert_eq!(schedules[2].time, "12:00");
}

#[test]
fn test_api_medicine_schedule_to_schedule() {
    let api_schedule = ApiMedicineSchedule {
        time: "14:30".to_string(),
        medicine_id: "test-medicine-id".to_string(),
        amount: 400.0,
    };

    let schedule = api_schedule.to_schedule();

    assert_eq!(schedule.time, "14:30");
    assert_eq!(schedule.medicine_id, "test-medicine-id");
    assert_eq!(schedule.amount, 400.0);
    assert_eq!(schedule.description, "");
    assert!(!schedule.id.is_empty());
}

#[test]
fn test_api_medicine_schedule_to_schedule_with_id() {
    let api_schedule = ApiMedicineSchedule {
        time: "16:00".to_string(),
        medicine_id: "test-medicine-id".to_string(),
        amount: 300.0,
    };

    let id = "custom-schedule-id".to_string();
    let schedule = api_schedule.to_schedule_with_id(id.clone());

    assert_eq!(schedule.id, id);
    assert_eq!(schedule.time, "16:00");
    assert_eq!(schedule.medicine_id, "test-medicine-id");
    assert_eq!(schedule.amount, 300.0);
    assert_eq!(schedule.description, "");
}

#[test]
fn test_daily_schedule_new() {
    let medicines = vec![
        (Some(Medicine::new("Med1".to_string(), 100.0, "mg".to_string(), 50.0)), 1.0),
        (Some(Medicine::new("Med2".to_string(), 200.0, "mg".to_string(), 25.0)), 2.0),
    ];

    let daily_schedule = DailySchedule::new("09:00".to_string(), medicines.clone());

    assert_eq!(daily_schedule.time, "09:00");
    assert_eq!(daily_schedule.medicines.len(), 2);
    assert_eq!(daily_schedule.taken, None);
}

#[test]
fn test_daily_schedule_ordering() {
    let schedule1: DailySchedule<f64> = DailySchedule::new("08:00".to_string(), vec![]);
    let schedule2: DailySchedule<f64> = DailySchedule::new("12:00".to_string(), vec![]);
    let schedule3: DailySchedule<f64> = DailySchedule::new("06:00".to_string(), vec![]);

    let schedules = vec![schedule1.clone(), schedule2.clone(), schedule3.clone()];
    let schedules = sort_naturally(schedules);

    assert_eq!(schedules[0].time, "06:00");
    assert_eq!(schedules[1].time, "08:00");
    assert_eq!(schedules[2].time, "12:00");
}

#[test]
fn test_daily_schedule_with_date_new() {
    let daily_schedules: Vec<DailySchedule<f64>> = vec![
        DailySchedule::new("08:00".to_string(), vec![]),
        DailySchedule::new("12:00".to_string(), vec![]),
    ];

    let schedule_with_date =
        DailyScheduleWithDate::new("2024-01-15".to_string(), daily_schedules.clone());

    assert_eq!(schedule_with_date.date, "2024-01-15");
    assert_eq!(schedule_with_date.schedules.len(), 2);
}

#[test]
fn test_daily_schedule_with_date_ordering() {
    let schedule1: DailyScheduleWithDate<f64> =
        DailyScheduleWithDate::new("2024-01-15".to_string(), vec![]);
    let schedule2: DailyScheduleWithDate<f64> =
        DailyScheduleWithDate::new("2024-01-20".to_string(), vec![]);
    let schedule3: DailyScheduleWithDate<f64> =
        DailyScheduleWithDate::new("2024-01-10".to_string(), vec![]);

    let schedules = vec![schedule1.clone(), schedule2.clone(), schedule3.clone()];
    let schedules = sort_naturally(schedules);

    assert_eq!(schedules[0].date, "2024-01-10");
    assert_eq!(schedules[1].date, "2024-01-15");
    assert_eq!(schedules[2].date, "2024-01-20");
}

#[test]
fn schedules_order_by_number_and_days_by_text() {
    // "9:00" reads as 900 and "10:00" as 1000, but as text "10:00" comes first.
    let early = MedicineSchedule::with_id("a".to_string(), "9:00".to_string(), "m".to_string(), 1);
    let late = MedicineSchedule::with_id("b".to_string(), "10:00".to_string(), "m".to_string(), 1);
    assert!(early.stands_before(&late));
    assert!(!late.stands_before(&early));
    assert!(early < late);

    let early: DailySchedule<i32> = DailySchedule::new("9:00".to_string(), vec![]);
    let late: DailySchedule<i32> = DailySchedule::new("10:00".to_string(), vec![]);
    assert!(late.stands_before(&early));
    assert!(!early.stands_before(&late));
    assert!(late < early);
}

#[test]
fn malformed_times_rank_as_zero() {
    let broken = MedicineSchedule::with_id("a".to_string(), "soon".to_string(), "m".to_string(), 1);
    let midnight =
        MedicineSchedule::with_id("b".to_string(), "00:00".to_string(), "m".to_string(), 1);
    let morning =
        MedicineSchedule::with_id("c".to_string(), "08:00".to_string(), "m".to_string(), 1);
    assert!(broken.stands_before(&midnight));
    assert!(midnight.stands_before(&broken));
    assert!(broken.stands_before(&morning));
    assert!(!morning.stands_before(&broken));

    let sorted = sort_naturally(vec![morning.clone(), midnight.clone(), broken.clone()]);
    let ids: Vec<&str> = sorted.iter().map(|s| s.id.as_str()).collect();
    assert_eq!(ids, vec!["b", "a", "c"]);
}

#[test]
fn sorting_keeps_the_order_of_equal_ranks() {
    let entries: Vec<MedicineSchedule<i32>> = vec![
        MedicineSchedule::with_id("1".to_string(), "08:00".to_string(), "x".to_string(), 1),
        MedicineSchedule::with_id("2".to_string(), "07:00".to_string(), "x".to_string(), 1),
        MedicineSchedule::with_id("3".to_string(), "8:00".to_string(), "x".to_string(), 1),
        MedicineSchedule::with_id("4".to_string(), "07:00".to_string(), "x".to_string(), 1),
        MedicineSchedule::with_id("5".to_string(), "0800".to_string(), "x".to_string(), 1),
    ];
    let sorted = sort_naturally(entries);
    let ids: Vec<&str> = sorted.iter().map(|s| s.id.as_str()).collect();
    assert_eq!(ids, vec!["2", "4", "1", "3", "5"]);
}
