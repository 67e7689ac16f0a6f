use speedy::schedule::{delay_millis, ScheduleError, Scheduler, LATEST_INSTANT};

#[test]
fn invalid_expression_is_refused() {
    assert_eq!(
        Scheduler::new("not a schedule", 0, 0).err(),
        Some(ScheduleError::InvalidExpression)
    );
}

#[test]
fn start_and_offset_out_of_range_are_refused() {
    assert_eq!(
        Scheduler::new("0 * * * * *", -1, 0).err(),
        Some(ScheduleError::StartOutOfRange)
    );
    assert_eq!(
        Scheduler::new("0 * * * * *", LATEST_INSTANT + 1, 0).err(),
        Some(ScheduleError::StartOutOfRange)
    );
    assert_eq!(
        Scheduler::new("0 * * * * *", 0, 86_400).err(),
        Some(ScheduleError::OffsetOutOfRange)
    );
}

#[test]
fn hourly_schedule_in_utc() {
    // 2020-01-01T00:00:00Z
    let start = 1_577_836_800;
    let mut s = Scheduler::new("0 0 * * * * *", start, 0).unwrap();
    assert_eq!(s.next_instant(start, 0), Some(start + 3600));
    assert_eq!(s.next_instant(start + 3600, 0), Some(start + 7200));
}

#[test]
fn first_instant_is_strictly_after_start() {
    let start = 1_577_836_800;
    let mut s = Scheduler::new("0 * * * * *", start, 0).unwrap();
    assert_eq!(s.next_instant(start, 0), Some(start + 60));
}

#[test]
fn missed_instants_are_skipped_not_caught_up() {
    let start = 1_577_836_800;
    let mut s = Scheduler::new("0 * * * * *", start, 0).unwrap();
    assert_eq!(s.next_instant(start, 0), Some(start + 60));
    // The caller comes back ten and a half minutes later.
    assert_eq!(s.next_instant(start + 630, 0), Some(start + 660));
    // A clock behind the last instant does not bring instants back.
    assert_eq!(s.next_instant(start, 0), Some(start + 720));
}

#[test]
fn expression_without_upcoming_instant_is_refused() {
    // Only in 2001, which is over by 2020.
    assert_eq!(
        Scheduler::new("0 0 0 1 1 * 2001", 1_577_836_800, 0).err(),
        Some(ScheduleError::NoUpcomingInstant)
    );
}

#[test]
fn offset_is_read_at_each_call() {
    // Midnight every day: at UTC, then two hours east of UTC.
    let start = 1_577_836_800;
    let mut s = Scheduler::new("0 0 0 * * * *", start, 0).unwrap();
    assert_eq!(s.next_instant(start, 0), Some(start + 86_400));
    assert_eq!(s.next_instant(start + 86_400, 7200), Some(start + 2 * 86_400 - 7200));
}

#[test]
fn schedule_reads_fields_at_the_offset() {
    // Midnight every day, two hours east of UTC: 22:00 UTC.
    let start = 1_577_836_800;
    let mut s = Scheduler::new("0 0 0 * * * *", start, 7200).unwrap();
    assert_eq!(s.next_instant(start, 7200), Some(start + 22 * 3600));
}

#[test]
fn delay_until_future_and_past_instants() {
    assert_eq!(delay_millis(100, 99_500), 500);
    assert_eq!(delay_millis(100, 100_000), 0);
    assert_eq!(delay_millis(100, 250_000), 0);
    assert_eq!(delay_millis(0, i64::MIN), 9_223_372_036_854_775_808);
}
