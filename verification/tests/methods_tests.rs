use todo_server::methods::{hint_log_line, now, plan_reminder, reminder, REMINDER_LEAD};
use todo_server::text::parse_i64;

#[test]
fn now_is_decimal_seconds() {
    let t = parse_i64(&now()).unwrap();
    assert!(t > 1600000000);
    let sys = std::time::SystemTime::now()
        .duration_since(std::time::UNIX_EPOCH)
        .unwrap()
        .as_secs() as i64;
    assert!((t - sys).abs() <= 2);
}

#[test]
fn reminder_fires_five_minutes_early() {
    assert_eq!(REMINDER_LEAD, 300);
    let r = plan_reminder(1000, 100).unwrap();
    assert_eq!((r.hint_time, r.sleep_secs), (600, 600));
    let r = plan_reminder(0, 100).unwrap();
    assert_eq!(r.hint_time, -400);
    assert_eq!(r.sleep_secs, (-400i64) as u64);
    assert_eq!(r.sleep_secs, u64::MAX - 399);
}

#[test]
fn reminder_reads_the_clock() {
    let start = parse_i64(&now()).unwrap() + 1000;
    let r = reminder(start).unwrap();
    assert!(r.hint_time <= 700 && r.hint_time >= 695);
    assert_eq!(r.sleep_secs, r.hint_time as u64);
}

#[test]
fn plan_out_of_range_is_none() {
    assert!(plan_reminder(i64::MIN, 1).is_none());
    assert!(plan_reminder(i64::MIN + 200, 0).is_none());
    assert!(plan_reminder(i64::MAX, -1).is_none());
    assert!(plan_reminder(i64::MIN + 300, 0).is_some());
    assert_eq!(plan_reminder(i64::MIN + 300, 0).unwrap().hint_time, i64::MIN);
}

#[test]
fn reminder_out_of_range_is_none() {
    assert!(reminder(i64::MIN).is_none());
    assert!(reminder(i64::MIN + 200).is_none());
}

#[test]
fn hint_line_shows_the_number() {
    assert_eq!(hint_log_line(600), "hint_time:600");
    assert_eq!(hint_log_line(-5), "hint_time:-5");
}

#[test]
fn reminder_exists_for_start_times_from_299() {
    let r = reminder(299).unwrap();
    assert!(r.hint_time < -1600000000);
    assert_eq!(r.sleep_secs, r.hint_time as u64);
    assert!(reminder(i64::MAX).is_some());
}
