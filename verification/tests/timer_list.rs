use systemd_dashboard::metadata::extract_timer_metadata;
use systemd_dashboard::systemd::{assemble_timers, build_timer_list, RawTimerInfo};

fn raw(unit: &str, next: Option<u64>, last: Option<u64>, activates: Option<&str>) -> RawTimerInfo {
    RawTimerInfo {
        next,
        last,
        unit: unit.to_string(),
        activates: activates.map(String::from),
    }
}

#[test]
fn timers_are_filtered_sorted_and_rendered() {
    let (schedules, load_states) = extract_timer_metadata(
        "Id=b.timer\nLoadState=loaded\nOnCalendar=daily\n\nId=gone.timer\nLoadState=not-found\n\nId=a.timer\nLoadState=loaded\nOnBootSec=5min\n",
    );
    let now = 1_000_000_000_000u64;
    let raws = vec![
        raw("b.timer", Some(now + 60_000_000), Some(now - 3_600_000_000), Some("b.service")),
        raw("gone.timer", None, None, None),
        raw("c.timer", None, Some(now), None),
        raw("a.timer", Some(now - 1), None, Some("a.service")),
    ];
    let rows = assemble_timers(raws, &schedules, &load_states, now);
    let units: Vec<&str> = rows.iter().map(|t| t.unit.as_str()).collect();
    assert_eq!(units, vec!["a.timer", "b.timer", "c.timer"]);

    assert_eq!(rows[0].status, "Waiting");
    assert_eq!(rows[0].schedule, "OnBootSec=5min");
    assert_eq!(rows[0].activates, "a.service");
    assert_eq!(rows[0].next_rel, "just now");
    assert_eq!(rows[0].last_abs, "n/a");

    assert_eq!(rows[1].status, "Active");
    assert_eq!(rows[1].schedule, "daily");
    assert_eq!(rows[1].next_rel, "in 1m");
    assert_eq!(rows[1].last_rel, "1h ago");

    assert_eq!(rows[2].status, "Inactive");
    assert_eq!(rows[2].schedule, "n/a");
    assert_eq!(rows[2].activates, "n/a");
    assert_eq!(rows[2].next_abs, "n/a");
    assert_eq!(rows[2].last_rel, "just now");
}

#[test]
fn equal_units_keep_their_order() {
    let (schedules, load_states) = extract_timer_metadata("");
    let raws = vec![
        raw("z.timer", None, None, Some("first")),
        raw("m.timer", None, None, None),
        raw("z.timer", None, None, Some("second")),
    ];
    let rows = assemble_timers(raws, &schedules, &load_states, 5);
    let acts: Vec<&str> = rows.iter().map(|t| t.activates.as_str()).collect();
    assert_eq!(acts, vec!["n/a", "first", "second"]);
}

#[test]
fn byte_order_puts_uppercase_first() {
    let (schedules, load_states) = extract_timer_metadata("");
    let raws = vec![raw("b", None, None, None), raw("B", None, None, None), raw("ab", None, None, None), raw("a", None, None, None)];
    let rows = build_timer_list(raws, &schedules, &load_states).unwrap();
    let units: Vec<&str> = rows.iter().map(|t| t.unit.as_str()).collect();
    assert_eq!(units, vec!["B", "a", "ab", "b"]);
}

#[test]
fn timers_without_a_unit_name_are_left_out() {
    let (schedules, load_states) = extract_timer_metadata("");
    let raws = vec![
        raw("", Some(10), None, Some("orphan.service")),
        raw("x.timer", None, None, None),
    ];
    let rows = build_timer_list(raws, &schedules, &load_states).unwrap();
    assert_eq!(rows.len(), 1);
    assert_eq!(rows[0].unit, "x.timer");
    assert!(rows.iter().all(|t| !t.unit.is_empty()));
}
