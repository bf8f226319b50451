use systemd_dashboard::metadata::{
    collect_timer_block_values, dedupe_schedule_values, extract_timer_metadata, push_schedule_value,
};

#[test]
fn timer_schedule_extracts_calendar_and_monotonic_values() {
    let (schedules, load_states) = extract_timer_metadata(
        "Id=test.timer\nLoadState=loaded\nOnCalendar=*-*-* 04:00:00\nOnUnitActiveSec=1d\n",
    );

    assert_eq!(
        schedules.get("test.timer").unwrap(),
        "*-*-* 04:00:00, OnUnitActiveSec=1d"
    );
    assert_eq!(load_states.get("test.timer").unwrap(), "loaded");
}

#[test]
fn timer_schedule_parses_timer_blocks() {
    let (schedules, _load_states) = extract_timer_metadata(
        "Id=test2.timer\nTimersCalendar={ OnCalendar=*-*-* *:00/30:00 ; next_elapse=1711111111111111 }\nTimersMonotonic={ OnBootSec=5min ; next_elapse=1711111111111112 }\n",
    );

    assert_eq!(
        schedules.get("test2.timer").unwrap(),
        "*-*-* *:00/30:00, OnBootSec=5min"
    );
}

#[test]
fn test_dedupe_schedule_values() {
    // Empty list
    assert_eq!(dedupe_schedule_values(vec![]), "n/a");

    // Single value
    assert_eq!(
        dedupe_schedule_values(vec!["*-*-* 04:00:00".to_string()]),
        "*-*-* 04:00:00"
    );

    // Multiple unique values
    assert_eq!(
        dedupe_schedule_values(vec![
            "*-*-* 04:00:00".to_string(),
            "OnBootSec=5min".to_string()
        ]),
        "*-*-* 04:00:00, OnBootSec=5min"
    );

    // Duplicate values
    assert_eq!(
        dedupe_schedule_values(vec![
            "*-*-* 04:00:00".to_string(),
            "*-*-* 04:00:00".to_string(),
            "OnBootSec=5min".to_string(),
            "OnBootSec=5min".to_string()
        ]),
        "*-*-* 04:00:00, OnBootSec=5min"
    );

    // Values with whitespace
    assert_eq!(
        dedupe_schedule_values(vec![
            "  *-*-* 04:00:00  ".to_string(),
            "OnBootSec=5min\n".to_string()
        ]),
        "*-*-* 04:00:00, OnBootSec=5min"
    );

    // Empty and blank string values
    assert_eq!(
        dedupe_schedule_values(vec![
            "".to_string(),
            "   ".to_string(),
            "*-*-* 04:00:00".to_string()
        ]),
        "*-*-* 04:00:00"
    );

    // Mixed case with duplicates and whitespace
    assert_eq!(
        dedupe_schedule_values(vec![
            "   ".to_string(),
            "OnBootSec=5min".to_string(),
            "  OnBootSec=5min  ".to_string(),
            "".to_string(),
            "*-*-* 04:00:00".to_string(),
            " *-*-* 04:00:00 ".to_string()
        ]),
        "OnBootSec=5min, *-*-* 04:00:00"
    );
}

#[test]
fn extract_timer_metadata_empty_input() {
    let (schedules, load_states) = extract_timer_metadata("");
    assert!(schedules.is_empty());
    assert!(load_states.is_empty());
}

#[test]
fn extract_timer_metadata_trailing_block_without_blank_line() {
    let (schedules, _load_states) =
        extract_timer_metadata("Id=tail.timer\nOnCalendar=*-*-* 06:00:00\n");
    assert_eq!(schedules.get("tail.timer").unwrap(), "*-*-* 06:00:00");
}

#[test]
fn extract_timer_metadata_block_with_load_state_no_blank() {
    let (_schedules, load_states) = extract_timer_metadata("Id=loaded.timer\nLoadState=loaded\n");
    assert_eq!(load_states.get("loaded.timer").unwrap(), "loaded");
}

#[test]
fn extract_timer_metadata_multiple_units_separated_by_blanks() {
    let input = "Id=a.timer\nOnCalendar=*-*-* 01:00:00\n\nId=b.timer\nOnBootSec=5min\n";
    let (schedules, _load_states) = extract_timer_metadata(input);
    assert_eq!(schedules.get("a.timer").unwrap(), "*-*-* 01:00:00");
    assert_eq!(schedules.get("b.timer").unwrap(), "OnBootSec=5min");
}

#[test]
fn extract_timer_metadata_skips_empty_schedule_values() {
    let (_schedules, _load_states) = extract_timer_metadata("Id=empty.timer\nOnCalendar=\n");
    // OnCalendar with empty value is skipped
    let (schedules, _ls) = extract_timer_metadata("Id=empty.timer\nOnCalendar=\n");
    assert_eq!(schedules.get("empty.timer").unwrap(), "n/a");
}

#[test]
fn collect_timer_block_values_skips_next_elapse_and_empty() {
    let mut schedules = Vec::new();
    collect_timer_block_values(
        " OnCalendar=*-*-* *:00/30:00 ; next_elapse=1711111111111111 ;  ",
        &mut schedules,
    );
    assert_eq!(schedules, vec!["*-*-* *:00/30:00"]);
}

#[test]
fn collect_timer_block_values_handles_empty_block() {
    let mut schedules = Vec::new();
    collect_timer_block_values("", &mut schedules);
    assert!(schedules.is_empty());
}

#[test]
fn push_schedule_value_skips_empty() {
    let mut schedules = Vec::new();
    push_schedule_value(&mut schedules, "OnCalendar", "");
    assert!(schedules.is_empty());
}

#[test]
fn push_schedule_value_on_calendar_keeps_raw_value() {
    let mut schedules = Vec::new();
    push_schedule_value(&mut schedules, "OnCalendar", "*-*-* 04:00:00");
    assert_eq!(schedules, vec!["*-*-* 04:00:00"]);
}

#[test]
fn push_schedule_value_other_prefix_uses_key_eq_value() {
    let mut schedules = Vec::new();
    push_schedule_value(&mut schedules, "OnBootSec", "5min");
    assert_eq!(schedules, vec!["OnBootSec=5min"]);
}

#[test]
fn dedupe_schedule_values_all_empty_or_whitespace() {
    assert_eq!(
        dedupe_schedule_values(vec!["  ".to_string(), "".to_string()]),
        "n/a"
    );
}


#[test]
fn blank_line_without_id_drops_the_pending_block() {
    let (schedules, load_states) =
        extract_timer_metadata("OnCalendar=daily\nLoadState=loaded\n\nId=x.timer\n");
    assert_eq!(schedules.get("x.timer").unwrap(), "n/a");
    assert!(load_states.get("x.timer").is_none());
}

#[test]
fn crlf_lines_and_not_found_units_are_read() {
    let (schedules, load_states) =
        extract_timer_metadata("Id=gone.timer\r\nLoadState=not-found\r\n\r\nId=ok.timer\r\nOnActiveSec=10s\r\n");
    assert_eq!(load_states.get("gone.timer").unwrap(), "not-found");
    assert_eq!(schedules.get("gone.timer").unwrap(), "n/a");
    assert_eq!(schedules.get("ok.timer").unwrap(), "OnActiveSec=10s");
    assert!(load_states.get("ok.timer").is_none());
}

#[test]
fn property_prefix_needs_an_equals_sign() {
    let (schedules, _) =
        extract_timer_metadata("Id=p.timer\nOnCalendarX=ignored\nOnStartupSec=2min\nOnUnitInactiveSec=1h\n");
    assert_eq!(
        schedules.get("p.timer").unwrap(),
        "OnStartupSec=2min, OnUnitInactiveSec=1h"
    );
}

#[test]
fn later_id_in_a_block_wins() {
    let (schedules, _) = extract_timer_metadata("Id=first.timer\nId=second.timer\nOnBootSec=1min");
    assert!(schedules.get("first.timer").is_none());
    assert_eq!(schedules.get("second.timer").unwrap(), "OnBootSec=1min");
}

#[test]
fn block_parts_without_equals_are_ignored() {
    let mut schedules = vec!["kept".to_string()];
    collect_timer_block_values(" OnBootSec = 5min ; garbage ; OnCalendar=daily }}", &mut schedules);
    assert_eq!(schedules, vec!["kept", "OnBootSec=5min", "daily"]);
}

#[test]
fn push_schedule_value_trims_value() {
    let mut schedules = Vec::new();
    push_schedule_value(&mut schedules, "OnActiveSec", "  30s \t");
    push_schedule_value(&mut schedules, "OnBootSec", " \n ");
    assert_eq!(schedules, vec!["OnActiveSec=30s"]);
}
