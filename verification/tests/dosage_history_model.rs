use chrono::{TimeZone, Utc};
use medicine_tracker::models::dosage_history::{
    ApiDosageHistory, DosageHistory, DosageHistoryError,
};
use medicine_tracker::order::{sort_naturally, NaturalOrder};

fn day(datetime: chrono::DateTime<Utc>) -> String {
    datetime.format("%Y-%m-%d").to_string()
}

fn clock(datetime: chrono::DateTime<Utc>) -> String {
    datetime.format("%H:%M").to_string()
}

fn history(id: &str, datetime: chrono::DateTime<Utc>, medicine_id: &str, amount: f64) -> DosageHistory<f64> {
    DosageHistory::with_id(
        id.to_string(),
        day(datetime),
        clock(datetime),
        medicine_id.to_string(),
        amount,
    )
}

#[test]
fn test_dosage_history_with_id() {
    let id = "history-id-123".to_string();
    let datetime = Utc::now();
    let history = DosageHistory::with_id(
        id.clone(),
        day(datetime),
        clock(datetime),
        "medicine-id-456".to_string(),
        500.0,
    );

    assert_eq!(history.id, id);
    assert_eq!(history.date, day(datetime));
    assert_eq!(history.time, clock(datetime));
    assert_eq!(history.medicine_id, "medicine-id-456");
    assert_eq!(history.amount, 500.0);
    assert_eq!(history.description, "");
}

#[test]
fn test_dosage_history_ordering() {
    let datetime1 = Utc.with_ymd_and_hms(2024, 1, 15, 8, 0, 0).unwrap();
    let datetime2 = Utc.with_ymd_and_hms(2024, 1, 15, 12, 0, 0).unwrap();
    let datetime3 = Utc.with_ymd_and_hms(2024, 1, 10, 8, 0, 0).unwrap();

    let history1 = history("id1", datetime1, "med1", 100.0);
    let history2 = history("id2", datetime2, "med2", 200.0);
    let history3 = history("id3", datetime3, "med3", 300.0);

    let histories = vec![history1.clone(), history2.clone(), history3.clone()];
    let histories = sort_naturally(histories);

    // Should be sorted by datetime (descending)
    assert_eq!((histories[0].date.clone(), histories[0].time.clone()), (day(datetime2), clock(datetime2)));
    assert_eq!((histories[1].date.clone(), histories[1].time.clone()), (day(datetime1), clock(datetime1)));
    assert_eq!((histories[2].date.clone(), histories[2].time.clone()), (day(datetime3), clock(datetime3)));
}

#[test]
fn test_api_dosage_history_to_dosage_history() {
    let api_history = ApiDosageHistory {
        date: "2024-01-20".to_string(),
        time: "14:30".to_string(),
        medicine_id: "test-medicine-id".to_string(),
        amount: 400.0,
    };

    let id = "custom-history-id".to_string();
    let description = "Test description".to_string();
    let datetime = Utc.with_ymd_and_hms(2024, 1, 20, 14, 30, 0).unwrap();
    let history = api_history.to_dosage_history(id.clone(), description.clone()).unwrap();

    assert_eq!(history.id, id);
    assert_eq!(history.date, day(datetime));
    assert_eq!(history.time, clock(datetime));
    assert_eq!(history.medicine_id, "test-medicine-id");
    assert_eq!(history.amount, 400.0);
    assert_eq!(history.description, description);
}

#[test]
fn test_dosage_history_equality() {
    let datetime1 = Utc.with_ymd_and_hms(2024, 1, 15, 8, 0, 0).unwrap();
    let datetime2 = Utc.with_ymd_and_hms(2024, 1, 15, 8, 0, 0).unwrap();
    let datetime3 = Utc.with_ymd_and_hms(2024, 1, 16, 8, 0, 0).unwrap(); // different date

    let history1 = history("id1", datetime1, "med1", 100.0);
    let history2 = history("id1", datetime2, "med1", 100.0);
    let history3 = history("id2", datetime3, "med1", 100.0); // different id

    assert_eq!(history1, history2);
    assert_ne!(history1, history3);
}

#[test]
fn test_dosage_history_partial_ord() {
    let datetime1 = Utc.with_ymd_and_hms(2024, 1, 15, 8, 0, 0).unwrap();
    let datetime2 = Utc.with_ymd_and_hms(2024, 1, 15, 12, 0, 0).unwrap();
    let h1 = DosageHistory {
        id: "".to_string(),
        date: day(datetime1),
        time: clock(datetime1),
        medicine_id: "".to_string(),
        description: "".to_string(),
        amount: 0.0,
    };
    let h2 = DosageHistory {
        id: "".to_string(),
        date: day(datetime2),
        time: clock(datetime2),
        medicine_id: "".to_string(),
        description: "".to_string(),
        amount: 0.0,
    };
    assert!(h2 > h1);
    assert!(h1 < h2);
}

#[test]
fn with_id_and_description_keeps_every_value() {
    let history = DosageHistory::with_id_and_description(
        "h".to_string(),
        "2024-02-29".to_string(),
        "23:59".to_string(),
        "m".to_string(),
        "after dinner".to_string(),
        1.5,
    );
    assert_eq!(history.id, "h");
    assert_eq!(history.date, "2024-02-29");
    assert_eq!(history.time, "23:59");
    assert_eq!(history.medicine_id, "m");
    assert_eq!(history.description, "after dinner");
    assert_eq!(history.amount, 1.5);
}

#[test]
fn a_later_day_comes_first_whatever_the_time() {
    let earlier: DosageHistory<f64> = DosageHistory::with_id(
        "a".to_string(),
        "2024-01-15".to_string(),
        "08:30".to_string(),
        "m".to_string(),
        1.0,
    );
    let later: DosageHistory<f64> = DosageHistory::with_id(
        "b".to_string(),
        "2024-01-20".to_string(),
        "08:00".to_string(),
        "m".to_string(),
        1.0,
    );
    assert!(later.stands_before(&earlier));
    assert!(!earlier.stands_before(&later));
    assert!(later.is_after(&earlier));
    assert!(!earlier.is_after(&later));

    let sorted = sort_naturally(vec![earlier.clone(), later.clone()]);
    assert_eq!(sorted[0].date, "2024-01-20");
    assert_eq!(sorted[1].date, "2024-01-15");
}

#[test]
fn within_a_day_the_later_time_comes_first() {
    let morning: DosageHistory<f64> = DosageHistory::with_id(
        "a".to_string(),
        "2024-01-15".to_string(),
        "08:30".to_string(),
        "m".to_string(),
        1.0,
    );
    let evening: DosageHistory<f64> = DosageHistory::with_id(
        "b".to_string(),
        "2024-01-15".to_string(),
        "20:00".to_string(),
        "m".to_string(),
        1.0,
    );
    assert!(evening.stands_before(&morning));
    assert!(!morning.stands_before(&evening));
    assert!(morning.stands_before(&morning));
}

#[test]
fn to_dosage_history_refuses_what_is_no_date_time() {
    let cases = [
        ("2024-13-01", "10:00"),
        ("2024-02-30", "10:00"),
        ("2023-02-29", "10:00"),
        ("2024-01-20", "24:00"),
        ("2024-01-20", "10:60"),
        ("2024-1-20", "10:00"),
        ("2024-01-20", "9:00"),
        ("", ""),
        ("tomorrow", "noon"),
        ("2024-01-20", "10:00:00"),
        ("2024-01-20T10:00:00Z", ""),
    ];
    for (date, time) in cases {
        let api = ApiDosageHistory {
            date: date.to_string(),
            time: time.to_string(),
            medicine_id: "m".to_string(),
            amount: 1.0,
        };
        assert_eq!(
            api.to_dosage_history("id".to_string(), String::new()),
            Err(DosageHistoryError::InvalidDateTime),
            "for {:?} {:?}",
            date,
            time
        );
    }
}

#[test]
fn to_dosage_history_takes_what_chrono_takes() {
    let cases = [("2024-02-29", "00:00"), ("1999-12-31", "23:59"), ("0001-01-01", "12:00")];
    for (date, time) in cases {
        let api = ApiDosageHistory {
            date: date.to_string(),
            time: time.to_string(),
            medicine_id: "m".to_string(),
            amount: 2.5,
        };
        assert_eq!(api.timestamp(), format!("{}T{}:00Z", date, time));
        assert!(chrono::DateTime::parse_from_rfc3339(&api.timestamp()).is_ok());
        let history = api.to_dosage_history("id".to_string(), "note".to_string()).unwrap();
        assert_eq!(history.date, date);
        assert_eq!(history.time, time);
        assert_eq!(history.description, "note");
        assert_eq!(history.amount, 2.5);
    }
}

#[test]
fn with_verdict_follows_the_verdict() {
    let api = ApiDosageHistory {
        date: "not a date".to_string(),
        time: "not a time".to_string(),
        medicine_id: "m".to_string(),
        amount: 3.0,
    };
    let accepted = chrono::DateTime::parse_from_rfc3339("2024-01-20T14:30:00Z").map(|_| ());
    let refused = chrono::DateTime::parse_from_rfc3339("no").map(|_| ());
    let history = api.with_verdict("id".to_string(), "d".to_string(), accepted).unwrap();
    assert_eq!(history.date, "not a date");
    assert_eq!(history.time, "not a time");
    assert_eq!(
        api.with_verdict("id".to_string(), "d".to_string(), refused),
        Err(DosageHistoryError::InvalidDateTime)
    );
}
