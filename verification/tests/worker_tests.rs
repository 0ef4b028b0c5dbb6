use zju_booking::models::{FlexNum, SeatInfo, SegmentDay, SegmentTime};
use zju_booking::worker::{
    before_start, is_free_status, select_seat, Worker, WorkerAction, WorkerEvent, WorkerStage, WorkerTask,
};

fn seat(id: &str, no: &str, status: FlexNum) -> SeatInfo {
    SeatInfo { id: id.to_string(), no: no.to_string(), name: String::new(), status }
}

#[test]
fn free_status() {
    assert!(is_free_status(&FlexNum::Num(1)));
    assert!(is_free_status(&FlexNum::Str("1".to_string())));
    assert!(!is_free_status(&FlexNum::Num(0)));
    assert!(!is_free_status(&FlexNum::Str("01".to_string())));
    assert!(!is_free_status(&FlexNum::Str("2".to_string())));
}

#[test]
fn selects_free_seat_with_smallest_number() {
    let seats = vec![
        seat("s1", "A010", FlexNum::Num(1)),
        seat("s2", "A002", FlexNum::Num(2)),
        seat("s3", "A003", FlexNum::Str("1".to_string())),
        seat("s4", "A003", FlexNum::Num(1)),
        seat("s5", "A100", FlexNum::Num(1)),
    ];
    assert_eq!(select_seat(&seats), Some(2));
    let busy = vec![seat("s1", "A001", FlexNum::Num(0)), seat("s2", "A002", FlexNum::Str("0".to_string()))];
    assert_eq!(select_seat(&busy), None);
    assert_eq!(select_seat(&vec![]), None);
}

#[test]
fn selection_matches_stable_sort() {
    let seats = vec![
        seat("a", "10", FlexNum::Num(1)),
        seat("b", "9", FlexNum::Num(1)),
        seat("c", "10", FlexNum::Num(1)),
        seat("d", "09", FlexNum::Num(0)),
    ];
    let mut free: Vec<&SeatInfo> = seats.iter().filter(|s| is_free_status(&s.status)).collect();
    free.sort_by_key(|s| s.no.clone());
    let k = select_seat(&seats).unwrap();
    assert_eq!(seats[k].id, free[0].id);
    assert_eq!(seats[k].id, "a");
}

#[test]
fn start_time_compares_as_text() {
    assert!(before_start("2024-03-01T08:00", "2024-03-01T07:59"));
    assert!(!before_start("2024-03-01T08:00", "2024-03-01T08:00"));
    assert!(!before_start("2024-03-01T08:00", "2024-03-02T00:00"));
}

fn worker() -> Worker {
    Worker::new(WorkerTask {
        area_id: "12".to_string(),
        target_date: "2024-03-02".to_string(),
        start_time: "2024-03-01T08:00".to_string(),
        interval_sec: 5,
    })
}

fn clock(now: &str) -> WorkerEvent {
    WorkerEvent::Clock { now: now.to_string(), pooled: false }
}

#[test]
fn worker_reuses_pooled_client() {
    let mut w = worker();
    let early = WorkerEvent::Clock { now: "2024-03-01T07:59".to_string(), pooled: true };
    assert!(matches!(w.step(early), WorkerAction::Sleep { secs: 15 }));
    let due = WorkerEvent::Clock { now: "2024-03-01T08:00".to_string(), pooled: true };
    match w.step(due) {
        WorkerAction::FetchSegment { area_id, date } => {
            assert_eq!(area_id, "12");
            assert_eq!(date, "2024-03-02");
        }
        _ => panic!("expected the segment query without a login"),
    }
    assert!(matches!(w.stage, WorkerStage::AwaitSegment));
}

#[test]
fn worker_books_and_completes() {
    let mut w = worker();
    assert!(matches!(w.step(clock("2024-03-01T07:59")), WorkerAction::Sleep { secs: 15 }));
    assert!(matches!(w.step(clock("2024-03-01T08:00")), WorkerAction::Login));
    match w.step(WorkerEvent::LoginResult { ok: true }) {
        WorkerAction::FetchSegment { area_id, date } => {
            assert_eq!(area_id, "12");
            assert_eq!(date, "2024-03-02");
        }
        _ => panic!("expected the segment query"),
    }
    let day = SegmentDay {
        day: "2024-03-02".to_string(),
        times: vec![
            SegmentTime { id: "77".to_string(), start: "08:00".to_string(), end: "22:00".to_string() },
            SegmentTime { id: "78".to_string(), start: "12:00".to_string(), end: "22:00".to_string() },
        ],
    };
    match w.step(WorkerEvent::SegmentResult { day: Some(day) }) {
        WorkerAction::FetchSeats { area_id, segment_id, date, start, end } => {
            assert_eq!((area_id.as_str(), segment_id.as_str(), date.as_str()), ("12", "77", "2024-03-02"));
            assert_eq!((start.as_str(), end.as_str()), ("08:00", "22:00"));
        }
        _ => panic!("expected the seat query"),
    }
    let seats = vec![seat("s9", "B2", FlexNum::Num(1)), seat("s8", "B1", FlexNum::Str("1".to_string()))];
    match w.step(WorkerEvent::SeatsResult { seats: Some(seats) }) {
        WorkerAction::Confirm { seat_id, seat_no, segment_id } => {
            assert_eq!(seat_id, "s8");
            assert_eq!(seat_no, "B1");
            assert_eq!(segment_id, "77");
        }
        _ => panic!("expected a booking"),
    }
    assert!(matches!(w.step(WorkerEvent::ConfirmResult { ok: true }), WorkerAction::Complete));
    assert!(matches!(w.stage, WorkerStage::Stopped));
}

#[test]
fn worker_retries_after_failures() {
    let mut w = worker();
    w.step(clock("2024-03-02T00:00"));
    assert!(matches!(w.step(WorkerEvent::LoginResult { ok: false }), WorkerAction::Sleep { secs: 5 }));
    w.step(clock("2024-03-02T00:00"));
    w.step(WorkerEvent::LoginResult { ok: true });
    assert!(matches!(w.step(WorkerEvent::SegmentResult { day: None }), WorkerAction::Sleep { secs: 5 }));
    w.step(clock("2024-03-02T00:00"));
    w.step(WorkerEvent::LoginResult { ok: true });
    let empty_day = SegmentDay { day: "2024-03-02".to_string(), times: vec![] };
    assert!(matches!(w.step(WorkerEvent::SegmentResult { day: Some(empty_day) }), WorkerAction::Sleep { secs: 5 }));
    w.step(clock("2024-03-02T00:00"));
    w.step(WorkerEvent::LoginResult { ok: true });
    let day = SegmentDay {
        day: "2024-03-02".to_string(),
        times: vec![SegmentTime { id: "1".to_string(), start: "a".to_string(), end: "b".to_string() }],
    };
    w.step(WorkerEvent::SegmentResult { day: Some(day) });
    let busy = vec![seat("s1", "1", FlexNum::Num(0))];
    assert!(matches!(w.step(WorkerEvent::SeatsResult { seats: Some(busy) }), WorkerAction::Sleep { secs: 5 }));
    assert!(matches!(w.stage, WorkerStage::Idle));
}

#[test]
fn worker_retries_after_refused_booking() {
    let mut w = worker();
    w.step(clock("2024-03-02T00:00"));
    w.step(WorkerEvent::LoginResult { ok: true });
    let day = SegmentDay {
        day: "2024-03-02".to_string(),
        times: vec![SegmentTime { id: "1".to_string(), start: "a".to_string(), end: "b".to_string() }],
    };
    w.step(WorkerEvent::SegmentResult { day: Some(day) });
    w.step(WorkerEvent::SeatsResult { seats: Some(vec![seat("s1", "1", FlexNum::Num(1))]) });
    assert!(matches!(w.step(WorkerEvent::ConfirmResult { ok: false }), WorkerAction::Sleep { secs: 5 }));
    assert!(matches!(w.stage, WorkerStage::Idle));
}

#[test]
fn worker_refuses_events_out_of_turn() {
    let mut w = worker();
    assert!(w.accepts_event(&clock("x")));
    assert!(!w.accepts_event(&WorkerEvent::LoginResult { ok: true }));
    w.step(clock("2024-03-02T00:00"));
    assert!(!w.accepts_event(&clock("x")));
    assert!(w.accepts_event(&WorkerEvent::LoginResult { ok: false }));
}
