use btrls::stamp::{display_or_empty, modified_display, Timestamp};

fn at(secs: i64, offset: i32) -> Option<Timestamp> {
    Some(Timestamp { secs, nanos: 0, offset })
}

#[test]
fn a_time_is_shown_as_month_day_year_hour_minute() {
    assert_eq!(modified_display(at(1_704_103_200, 0)), "Jan  1 2024 10:00");
    assert_eq!(modified_display(at(1_718_458_245, 0)), "Jun 15 2024 13:30");
    assert_eq!(modified_display(at(0, 0)), "Jan  1 1970 00:00");
}

#[test]
fn the_offset_moves_the_local_time() {
    assert_eq!(modified_display(at(1_704_103_200, 3600)), "Jan  1 2024 11:00");
    assert_eq!(modified_display(at(1_704_103_200, -18_000)), "Jan  1 2024 05:00");
    assert_eq!(modified_display(at(1_704_103_200, 19_800)), "Jan  1 2024 15:30");
    assert_eq!(modified_display(at(1_704_067_200, -60)), "Dec 31 2023 23:59");
}

#[test]
fn seconds_and_nanoseconds_are_not_shown() {
    let stamp = Timestamp { secs: 1_704_103_259, nanos: 999_999_999, offset: 0 };
    assert_eq!(modified_display(Some(stamp)), "Jan  1 2024 10:00");
}

#[test]
fn a_time_before_the_epoch_is_shown() {
    assert_eq!(modified_display(at(-86_400, 0)), "Dec 31 1969 00:00");
}

#[test]
fn no_time_is_shown_as_nothing() {
    assert_eq!(modified_display(None), "");
}

#[test]
fn a_time_out_of_range_is_shown_as_nothing() {
    assert_eq!(modified_display(at(i64::MAX, 0)), "");
    assert_eq!(modified_display(at(i64::MIN, 0)), "");
    assert_eq!(modified_display(at(0, 86_400)), "");
    assert_eq!(modified_display(at(0, -86_400)), "");
    let odd = Timestamp { secs: 0, nanos: u32::MAX, offset: 0 };
    assert_eq!(modified_display(Some(odd)), "");
}

#[test]
fn an_absent_text_is_empty() {
    assert_eq!(display_or_empty(None), "");
    assert_eq!(display_or_empty(Some("x".to_string())), "x");
}
