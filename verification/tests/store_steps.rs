use medicine_tracker::aggregation::build_daily_schedule;
use medicine_tracker::models::{DailySchedule, Medicine, MedicineSchedule};
use medicine_tracker::store::{
    collect_records, created, list_step, read_step, record_key, refusal, remove_step,
    scan_pattern, write_step, Fetched, Step, StoreCommand, StoreError, StoreReply,
};

fn medicine(id: &str, name: &str) -> Medicine<u32> {
    Medicine::with_id(id.to_string(), name.to_string(), 1, "mg".to_string(), 10)
}

fn entry(id: &str, time: &str, medicine_id: &str, amount: u32) -> MedicineSchedule<u32> {
    MedicineSchedule::with_id(id.to_string(), time.to_string(), medicine_id.to_string(), amount)
}

#[test]
fn keys_are_the_prefix_and_the_identifier() {
    assert_eq!(record_key("prod:medicine:", "abc"), "prod:medicine:abc");
    assert_eq!(record_key("", "abc"), "abc");
    assert_eq!(record_key("p:", ""), "p:");
    assert_eq!(scan_pattern("prod:medicine:"), "prod:medicine:*");
    assert_eq!(scan_pattern(""), "*");
}

#[test]
fn collect_records_keeps_the_records_in_their_order() {
    let values = vec![
        Fetched::Absent,
        Fetched::Record(medicine("1", "B")),
        Fetched::Undecodable,
        Fetched::Record(medicine("2", "A")),
        Fetched::Record(medicine("3", "C")),
        Fetched::Absent,
    ];
    let ids: Vec<String> = collect_records(values).into_iter().map(|m| m.id).collect();
    assert_eq!(ids, vec!["1", "2", "3"]);
    assert_eq!(collect_records(Vec::<Fetched<Medicine<u32>>>::new()), vec![]);
    assert_eq!(
        collect_records(vec![Fetched::<Medicine<u32>>::Undecodable, Fetched::Absent]),
        vec![]
    );
}

#[test]
fn read_step_asks_then_answers() {
    assert_eq!(
        read_step::<Medicine<u32>>("p:", "x", None),
        Step::Send(StoreCommand::Read { key: "p:x".to_string() })
    );
    assert_eq!(
        read_step("p:", "x", Some(StoreReply::Value(Fetched::Record(medicine("x", "A"))))),
        Step::Finish(Ok(Some(medicine("x", "A"))))
    );
    assert_eq!(
        read_step::<Medicine<u32>>("p:", "x", Some(StoreReply::Value(Fetched::Absent))),
        Step::Finish(Ok(None))
    );
    assert_eq!(
        read_step::<Medicine<u32>>("p:", "x", Some(StoreReply::Value(Fetched::Undecodable))),
        Step::Finish(Err(StoreError::Decode))
    );
}

#[test]
fn write_step_asks_then_answers() {
    assert_eq!(
        write_step("p:", "x", medicine("x", "A"), None),
        Step::Send(StoreCommand::Write { key: "p:x".to_string(), record: medicine("x", "A") })
    );
    assert_eq!(
        write_step("p:", "x", medicine("x", "A"), Some(StoreReply::Done)),
        Step::Finish(Ok(true))
    );
    assert_eq!(
        write_step("p:", "x", medicine("x", "A"), Some(StoreReply::Failed(StoreError::Encode))),
        Step::Finish(Err(StoreError::Encode))
    );
}

#[test]
fn remove_step_asks_then_answers() {
    assert_eq!(
        remove_step::<Medicine<u32>>("p:", "x", None),
        Step::Send(StoreCommand::Remove { key: "p:x".to_string() })
    );
    assert_eq!(remove_step::<Medicine<u32>>("p:", "x", Some(StoreReply::Done)), Step::Finish(Ok(())));
}

#[test]
fn list_step_asks_twice_then_answers() {
    assert_eq!(
        list_step::<Medicine<u32>>("p:", None),
        Step::Send(StoreCommand::Scan { pattern: "p:*".to_string() })
    );
    assert_eq!(
        list_step::<Medicine<u32>>("p:", Some(StoreReply::Keys(vec![]))),
        Step::Finish(Ok(vec![]))
    );
    let keys = vec!["p:2".to_string(), "p:1".to_string()];
    assert_eq!(
        list_step::<Medicine<u32>>("p:", Some(StoreReply::Keys(keys.clone()))),
        Step::Send(StoreCommand::ReadMany { keys })
    );
    assert_eq!(
        list_step(
            "p:",
            Some(StoreReply::Values(vec![
                Fetched::Record(medicine("2", "Zinc")),
                Fetched::Record(medicine("1", "Aspirin")),
            ]))
        ),
        Step::Finish(Ok(vec![medicine("1", "Aspirin"), medicine("2", "Zinc")]))
    );
    // Fewer values than keys were asked for, or none: no error.
    assert_eq!(
        list_step::<Medicine<u32>>("p:", Some(StoreReply::Values(vec![]))),
        Step::Finish(Ok(vec![]))
    );
}

#[test]
fn refusal_is_the_error_of_the_store_or_an_unexpected_reply() {
    assert_eq!(
        refusal(&StoreReply::<Medicine<u32>>::Failed(StoreError::Connectivity)),
        StoreError::Connectivity
    );
    assert_eq!(refusal(&StoreReply::<Medicine<u32>>::Failed(StoreError::Decode)), StoreError::Decode);
    assert_eq!(refusal(&StoreReply::<Medicine<u32>>::Done), StoreError::UnexpectedReply);
    assert_eq!(refusal(&StoreReply::<Medicine<u32>>::Keys(vec![])), StoreError::UnexpectedReply);
}

#[test]
fn created_returns_the_identifier_once_written() {
    assert_eq!(created("id-1".to_string(), StoreReply::<Medicine<u32>>::Done), Ok("id-1".to_string()));
    assert_eq!(
        created("id-1".to_string(), StoreReply::<Medicine<u32>>::Failed(StoreError::Connectivity)),
        Err(StoreError::Connectivity)
    );
}

#[test]
fn build_daily_schedule_groups_and_orders() {
    let schedules = vec![
        entry("s1", "12:00", "a", 1),
        entry("s2", "08:00", "b", 2),
        entry("s3", "12:00", "missing", 3),
        entry("s4", "8:00", "a", 4),
        entry("s5", "08:00", "a", 5),
    ];
    let a = medicine("a", "A");
    let b = medicine("b", "B");
    let medicines =
        vec![Some(a.clone()), Some(b.clone()), None, Some(a.clone()), Some(a.clone())];
    let days = build_daily_schedule(schedules, medicines);
    assert_eq!(
        days,
        vec![
            DailySchedule {
                time: "08:00".to_string(),
                medicines: vec![(Some(b.clone()), 2), (Some(a.clone()), 5)],
                taken: None,
            },
            DailySchedule {
                time: "12:00".to_string(),
                medicines: vec![(Some(a.clone()), 1), (None, 3)],
                taken: None,
            },
            DailySchedule {
                time: "8:00".to_string(),
                medicines: vec![(Some(a.clone()), 4)],
                taken: None,
            },
        ]
    );
}

#[test]
fn build_daily_schedule_of_nothing_is_empty() {
    let days = build_daily_schedule(Vec::<MedicineSchedule<u32>>::new(), vec![]);
    assert!(days.is_empty());
}
