use sbb::dates::{days_in_month, Date, DateTime};
use sbb::selector::{DateTimeSelector, Preset, StoreOutcome};

#[test]
fn impossible_days_are_clamped_before_committing() {
    let mut s = DateTimeSelector::new();
    // leap year: February 30 becomes February 29
    let r = s.store_fields(2024, 2, 30, 12, 0);
    assert_eq!(r, StoreOutcome::DayClamped { day: 29 });
    assert!(s.edit_fields(2024, 2, 30, 12, 0));
    let dt = s.get_date_time().unwrap();
    assert_eq!(dt.date, Date { year: 2024, month: 2, day: 29 });
    // non-leap year: February 30 becomes February 28
    assert!(s.edit_fields(2023, 2, 30, 12, 0));
    let dt = s.get_date_time().unwrap();
    assert_eq!(dt.date, Date { year: 2023, month: 2, day: 28 });
    // day 31 in April becomes 30
    assert!(s.edit_fields(2024, 4, 31, 8, 15));
    let dt = s.get_date_time().unwrap();
    assert_eq!(dt.date, Date { year: 2024, month: 4, day: 30 });
    assert!(dt.date.day <= days_in_month(dt.date.year, dt.date.month));
}

#[test]
fn a_valid_edit_commits_unchanged() {
    let mut s = DateTimeSelector::new();
    assert_eq!(s.store_fields(2024, 3, 17, 8, 15), StoreOutcome::Committed);
    let dt = s.get_date_time().unwrap();
    assert_eq!(dt, DateTime { date: Date { year: 2024, month: 3, day: 17 }, hour: 8, minute: 15 });
}

#[test]
fn the_date_is_omitted_when_unset_or_today() {
    let today = Date { year: 2024, month: 3, day: 17 };
    let mut s = DateTimeSelector::new();
    assert_eq!(s.get_date(today), None);
    assert_eq!(s.get_time(), None);
    assert!(s.edit_fields(2024, 3, 17, 8, 15));
    assert_eq!(s.get_date(today), None);
    assert_eq!(s.get_time(), Some("08:15".to_string()));
    let another_day = Date { year: 2024, month: 3, day: 18 };
    assert_eq!(s.get_date(another_day), Some("2024-03-17".to_string()));
}

#[test]
fn presets_commit_their_instant() {
    let today = Date { year: 2024, month: 12, day: 31 };
    let mut s = DateTimeSelector::new();
    assert!(s.select_preset(Preset::Tonight, today));
    assert_eq!(
        s.get_date_time(),
        Some(DateTime { date: today, hour: 19, minute: 0 })
    );
    assert!(s.select_preset(Preset::TomorrowMorning, today));
    assert_eq!(
        s.get_date_time(),
        Some(DateTime { date: Date { year: 2025, month: 1, day: 1 }, hour: 9, minute: 0 })
    );
    assert!(s.select_preset(Preset::TomorrowEvening, today));
    assert_eq!(
        s.get_date_time(),
        Some(DateTime { date: Date { year: 2025, month: 1, day: 1 }, hour: 19, minute: 0 })
    );
    assert!(s.select_preset(Preset::Now, today));
    assert_eq!(s.get_date_time(), None);
}

#[test]
fn commits_fired_during_a_refill_are_skipped() {
    let today = Date { year: 2024, month: 3, day: 17 };
    let now = DateTime { date: today, hour: 10, minute: 30 };
    let mut s = DateTimeSelector::new();
    assert!(s.edit_fields(2024, 3, 17, 8, 15, ));
    let fields = s.begin_refill(now);
    assert_eq!(fields.hour, 8);
    // re-populating the spinners fires edits; they must not commit
    assert_eq!(s.store_fields(2024, 3, 17, 9, 0), StoreOutcome::Skipped);
    assert!(!s.edit_fields(2024, 3, 17, 9, 0));
    s.end_refill();
    let dt = s.get_date_time().unwrap();
    assert_eq!(dt.hour, 8);
    assert_eq!(dt.minute, 15);
    // an unset selector shows the current time in the fields
    let mut fresh = DateTimeSelector::new();
    assert_eq!(fresh.begin_refill(now), now);
    fresh.end_refill();
}

#[test]
fn the_arrival_toggle_flips_only_the_flag() {
    let mut s = DateTimeSelector::new();
    assert!(!s.is_arrival_time());
    s.toggle_arrival();
    assert!(s.is_arrival_time());
    s.toggle_arrival();
    assert!(!s.is_arrival_time());
}

#[test]
fn the_summary_names_the_mode_and_the_instant() {
    let mut s = DateTimeSelector::new();
    assert_eq!(s.summary_text(), "Departure now");
    s.toggle_arrival();
    assert_eq!(s.summary_text(), "Arrival now");
    assert!(s.edit_fields(2024, 3, 17, 8, 5));
    assert_eq!(s.summary_text(), "Arrival at 2024-03-17 08:05");
}

#[test]
fn the_clock_yields_a_valid_instant() {
    let now = sbb::clock::current_date_time().unwrap();
    assert!(1 <= now.date.month && now.date.month <= 12);
    assert!(1 <= now.date.day && now.date.day <= days_in_month(now.date.year, now.date.month));
    assert!(now.hour <= 23 && now.minute <= 59);
}

#[test]
fn month_lengths_follow_the_calendar() {
    assert_eq!(days_in_month(2024, 2), 29);
    assert_eq!(days_in_month(2023, 2), 28);
    assert_eq!(days_in_month(2100, 2), 28);
    assert_eq!(days_in_month(2000, 2), 29);
    assert_eq!(days_in_month(2024, 4), 30);
    assert_eq!(days_in_month(2024, 12), 31);
}
