use systemd_dashboard::app::{App, DetailPaneFocus, ViewMode};
use systemd_dashboard::screen::{count_visual_lines, footer_bindings, logs_look_empty, status_label, toggle_description};
use systemd_dashboard::systemd::TimerInfo;

#[test]
fn test_count_visual_lines_zero_width() {
    assert_eq!(count_visual_lines("hello world", 0), 0);
}

#[test]
fn test_count_visual_lines_empty_string() {
    assert_eq!(count_visual_lines("", 10), 0);
}

#[test]
fn test_count_visual_lines_no_wrap() {
    assert_eq!(count_visual_lines("hello", 10), 1);
    assert_eq!(count_visual_lines("hello world", 11), 1);
}

#[test]
fn test_count_visual_lines_with_wrap() {
    assert_eq!(count_visual_lines("hello world", 10), 2);
    assert_eq!(count_visual_lines("hello world", 5), 3);
}

#[test]
fn test_count_visual_lines_long_words() {
    assert_eq!(count_visual_lines("supercalifragilisticexpialidocious", 10), 4);
    assert_eq!(count_visual_lines("12345678901234567890", 10), 2);
}

#[test]
fn test_count_visual_lines_multiline() {
    assert_eq!(count_visual_lines("line1\nline2\n\nline4", 10), 4);
}

fn timer(status: &str) -> TimerInfo {
    TimerInfo {
        unit: "test.timer".into(),
        activates: "test.service".into(),
        next_abs: "n/a".into(),
        last_abs: "n/a".into(),
        next_rel: "n/a".into(),
        last_rel: "n/a".into(),
        status: status.into(),
        schedule: "daily".into(),
    }
}

fn descriptions(b: &[(&str, &str)]) -> Vec<String> {
    b.iter().map(|(_, d)| d.to_string()).collect()
}


#[test]
fn count_visual_lines_counts_non_ascii_by_chars() {
    assert_eq!(count_visual_lines("\u{e9}\u{e9}\u{e9}\u{e9}", 2), 2);
    assert_eq!(count_visual_lines("a\r\nb\n", 3), 2);
}

#[test]
fn count_visual_lines_never_exceeds_char_count() {
    for text in ["a b c d e f", "x\n\n\ny", "  ", "word  word  word"] {
        for w in 1..8u16 {
            assert!(count_visual_lines(text, w) <= text.chars().count());
        }
    }
}

#[test]
fn footer_in_list_mode() {
    let mut app = App::new();
    assert_eq!(descriptions(&footer_bindings(&app, false)), vec!["Quit", "Refresh"]);
    app.timers.push(timer("Active"));
    assert_eq!(
        descriptions(&footer_bindings(&app, false)),
        vec!["Quit", "Refresh", "Navigate", "Details", "Stop Timer"]
    );
    app.timers[0].status = "Inactive".into();
    assert_eq!(toggle_description(&app), "Start Timer");
}

#[test]
fn footer_in_detail_mode() {
    let mut app = App::new();
    app.mode = ViewMode::Detail;
    app.detail_focus = DetailPaneFocus::Top;
    assert_eq!(
        descriptions(&footer_bindings(&app, true)),
        vec!["Quit", "Refresh", "Back", "Focus Bottom", "Switch Mode", "Toggle Timer"]
    );
    app.detail_focus = DetailPaneFocus::Bottom;
    assert_eq!(
        descriptions(&footer_bindings(&app, true)),
        vec!["Quit", "Refresh", "Back", "Focus Top", "Scroll", "Toggle Timer"]
    );
    assert_eq!(
        descriptions(&footer_bindings(&app, false)),
        vec!["Quit", "Refresh", "Back", "Focus Top", "Toggle Timer"]
    );
}

#[test]
fn status_labels_mark_known_states() {
    assert_eq!(status_label("Active"), "\u{2714} Active");
    assert_eq!(status_label("Waiting"), "\u{23F3} Waiting");
    assert_eq!(status_label("Inactive"), "\u{23F8} Inactive");
    assert_eq!(status_label("Broken"), "\u{26A0} Broken");
}

#[test]
fn empty_logs_detection() {
    assert!(logs_look_empty("  \n "));
    assert!(logs_look_empty("\n-- No entries --\n"));
    assert!(!logs_look_empty("Apr 1 started"));
}

#[test]
fn status_pane_lists_timer_fields_then_status() {
    let mut t = timer("active");
    t.unit = "sysstat-collect.timer".into();
    t.activates = "sysstat-collect.service".into();
    t.schedule = "*-*-* *:00:00".into();
    t.last_abs = "2024-01-01 10:00:00".into();
    t.last_rel = "10min ago".into();
    t.next_abs = "2024-01-01 11:00:00".into();
    t.next_rel = "50min left".into();
    let detail = "Some complex detail status\nwith multiple lines\nand extra info.";
    assert_eq!(
        systemd_dashboard::screen::format_status_text(&t, detail),
        format!(
            "Unit: {}\nService: {}\nSchedule: {}\n\nLast Run: {} ({})\nNext Run: {} ({})\nStatus: {}\n\n{}",
            t.unit, t.activates, t.schedule, t.last_abs, t.last_rel, t.next_abs, t.next_rel, t.status, detail
        )
    );
}
