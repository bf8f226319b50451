use systemd_dashboard::app::{App, DetailContentMode, DetailPaneFocus, ViewMode};
use systemd_dashboard::systemd::TimerInfo;

fn timer(unit: &str, status: &str) -> TimerInfo {
    TimerInfo {
        unit: unit.to_string(),
        activates: format!("{}.service", unit.trim_end_matches(".timer")),
        next_abs: "n/a".to_string(),
        last_abs: "n/a".to_string(),
        next_rel: "n/a".to_string(),
        last_rel: "n/a".to_string(),
        status: status.to_string(),
        schedule: "daily".to_string(),
    }
}

#[test]
fn detail_view_defaults_to_logs_mode() {
    let mut app = App::new();

    app.enter_detail();

    assert!(matches!(app.mode, ViewMode::Detail));
    assert_eq!(app.detail_focus, DetailPaneFocus::Top);
    assert_eq!(app.detail_content_mode, DetailContentMode::Logs);
    assert_eq!(app.detail_scroll, 0);
}

#[test]
fn detail_focus_toggles_between_panes() {
    let mut app = App::new();

    app.enter_detail();
    app.toggle_detail_focus();
    assert_eq!(app.detail_focus, DetailPaneFocus::Bottom);

    app.toggle_detail_focus();
    assert_eq!(app.detail_focus, DetailPaneFocus::Top);
}

#[test]
fn detail_content_mode_switches_between_logs_and_service_file() {
    let mut app = App::new();

    app.enter_detail();
    app.select_next_detail_content();
    assert_eq!(app.detail_content_mode, DetailContentMode::ServiceFile);

    app.select_previous_detail_content();
    assert_eq!(app.detail_content_mode, DetailContentMode::Logs);
}

#[test]
fn detail_scroll_helpers_clamp_to_valid_bounds() {
    let mut app = App::new();

    app.enter_detail();
    app.scroll_detail_down(3);
    assert_eq!(app.detail_scroll, 1);

    app.scroll_detail_down(3);
    app.scroll_detail_down(3);
    app.scroll_detail_down(3);
    assert_eq!(app.detail_scroll, 3);

    app.scroll_detail_up();
    assert_eq!(app.detail_scroll, 2);

    app.scroll_detail_up();
    app.scroll_detail_up();
    app.scroll_detail_up();
    assert_eq!(app.detail_scroll, 0);
}

#[test]
fn detail_scroll_manages_auto_scroll_state() {
    let mut app = App::new();

    app.enter_detail();
    assert!(app.auto_scroll);

    // Scrolling up disables auto-scroll
    app.scroll_detail_up();
    assert!(!app.auto_scroll);

    // Scrolling down to the max (simulated bottom) re-enables auto-scroll
    app.scroll_detail_down(5);
    app.scroll_detail_down(5);
    app.scroll_detail_down(5);
    app.scroll_detail_down(5);
    app.scroll_detail_down(5);
    app.scroll_detail_down(5);
    assert!(app.auto_scroll);
}

#[test]
fn new_app_starts_in_list_view() {
    let app = App::new();
    assert_eq!(app.mode, ViewMode::List);
    assert!(app.timers.is_empty());
    assert_eq!(app.selected_index, 0);
    assert!(app.error.is_none());
    assert!(!app.should_quit);
    assert!(app.auto_scroll);
    assert!(app.selected_timer().is_none());
}

#[test]
fn navigation_wraps_around_the_list() {
    let mut app = App::new();
    app.timers = vec![timer("a.timer", "Active"), timer("b.timer", "Waiting"), timer("c.timer", "Inactive")];
    app.next();
    assert_eq!(app.selected_index, 1);
    app.next();
    app.next();
    assert_eq!(app.selected_index, 0);
    app.previous();
    assert_eq!(app.selected_index, 2);
    app.previous();
    assert_eq!(app.selected_index, 1);
    assert_eq!(app.selected_timer().unwrap().unit, "b.timer");
}

#[test]
fn navigation_on_empty_list_does_nothing() {
    let mut app = App::new();
    app.next();
    assert_eq!(app.selected_index, 0);
    app.previous();
    assert_eq!(app.selected_index, 0);
}

#[test]
fn next_then_previous_restores_selection() {
    let mut app = App::new();
    app.timers = vec![timer("a.timer", "Active"), timer("b.timer", "Active")];
    for start in 0..2 {
        app.selected_index = start;
        app.next();
        app.previous();
        assert_eq!(app.selected_index, start);
        app.previous();
        app.next();
        assert_eq!(app.selected_index, start);
    }
}

#[test]
fn exit_detail_clears_texts_and_resets_view() {
    let mut app = App::new();
    app.enter_detail();
    app.detail_status = "Id=x.timer".to_string();
    app.detail_logs = "log".to_string();
    app.toggle_detail_focus();
    app.select_next_detail_content();
    app.scroll_detail_down(10);
    app.scroll_detail_up();
    app.exit_detail();
    assert_eq!(app.mode, ViewMode::List);
    assert!(app.detail_status.is_empty());
    assert!(app.detail_logs.is_empty());
    assert_eq!(app.detail_focus, DetailPaneFocus::Top);
    assert_eq!(app.detail_content_mode, DetailContentMode::Logs);
    assert_eq!(app.detail_scroll, 0);
    assert!(app.auto_scroll);
}

#[test]
fn open_detail_records_fetches_and_failures() {
    let mut app = App::new();
    app.timers = vec![timer("a.timer", "Active")];
    app.open_detail(Ok("Id=a.timer".to_string()), Err("journal down".to_string()));
    assert_eq!(app.mode, ViewMode::Detail);
    assert_eq!(app.detail_status, "Id=a.timer");
    assert_eq!(app.detail_logs, "Error fetching logs");
    assert_eq!(app.error.as_deref(), Some("journal down"));

    let mut app = App::new();
    app.open_detail(Err("no status".to_string()), Ok("lines".to_string()));
    assert_eq!(app.detail_status, "Error fetching status");
    assert_eq!(app.detail_logs, "lines");
    assert_eq!(app.error.as_deref(), Some("no status"));
}

#[test]
fn detail_target_needs_a_named_selected_timer() {
    let mut app = App::new();
    assert!(app.detail_target().is_none());
    app.timers = vec![timer("", "Active")];
    assert!(app.detail_target().is_none());
    app.timers = vec![timer("a.timer", "Active")];
    assert_eq!(
        app.detail_target(),
        Some(("a.timer".to_string(), "a.service".to_string()))
    );
}

#[test]
fn toggle_request_stops_running_and_starts_others() {
    let mut app = App::new();
    assert!(app.toggle_request().is_none());
    app.timers = vec![timer("a.timer", "Active"), timer("b.timer", "Waiting"), timer("c.timer", "Inactive")];
    assert_eq!(app.toggle_request(), Some(("a.timer".to_string(), false)));
    app.next();
    assert_eq!(app.toggle_request(), Some(("b.timer".to_string(), false)));
    app.next();
    assert_eq!(app.toggle_request(), Some(("c.timer".to_string(), true)));
}

#[test]
fn detail_content_refresh_resets_scroll_and_auto_scroll_for_logs_only() {
    let mut app = App::new();
    app.timers = vec![timer("a.timer", "Active")];
    app.enter_detail();
    app.scroll_detail_down(10);
    app.scroll_detail_up();
    app.scroll_detail_down(10);
    app.select_next_detail_content();
    assert_eq!(
        app.detail_content_request(),
        Some((DetailContentMode::ServiceFile, "a.service".to_string()))
    );
    app.apply_detail_content(Err("gone".to_string()), true);
    assert_eq!(app.detail_logs, "Error fetching service file");
    assert_eq!(app.error.as_deref(), Some("gone"));
    assert_eq!(app.detail_scroll, 0);
    assert!(!app.auto_scroll);

    app.select_previous_detail_content();
    app.apply_detail_content(Ok("entries".to_string()), true);
    assert_eq!(app.detail_logs, "entries");
    assert!(app.auto_scroll);

    app.scroll_detail_down(4);
    app.apply_detail_content(Err("x".to_string()), false);
    assert_eq!(app.detail_logs, "Error fetching logs");
    assert_eq!(app.detail_scroll, 1);
}

#[test]
fn timer_list_fetch_replaces_or_reports() {
    let mut app = App::new();
    app.error = Some("old".to_string());
    app.apply_timer_list(Ok(vec![timer("a.timer", "Active")]), false);
    assert_eq!(app.timers.len(), 1);
    assert_eq!(app.error.as_deref(), Some("old"));
    app.apply_timer_list(Ok(vec![]), true);
    assert!(app.timers.is_empty());
    assert!(app.error.is_none());
    app.apply_timer_list(Err("boom".to_string()), true);
    assert_eq!(app.error.as_deref(), Some("boom"));
}

#[test]
fn apply_status_records_text_or_failure() {
    let mut app = App::new();
    app.apply_status(Ok("Id=a".to_string()));
    assert_eq!(app.detail_status, "Id=a");
    assert!(app.error.is_none());
    app.apply_status(Err("failed".to_string()));
    assert_eq!(app.detail_status, "Error fetching status");
    assert_eq!(app.error.as_deref(), Some("failed"));
}

#[test]
fn fit_detail_scroll_clamps_and_follows_logs() {
    let mut app = App::new();
    app.enter_detail();
    // auto-scroll on logs: pinned to the bottom
    assert_eq!(app.fit_detail_scroll(30, 10), 20);
    assert_eq!(app.detail_scroll, 20);
    // auto-scroll off: lowered to the bottom when past it
    app.scroll_detail_up();
    app.detail_scroll = 50;
    assert_eq!(app.fit_detail_scroll(30, 10), 20);
    assert_eq!(app.detail_scroll, 20);
    app.detail_scroll = 5;
    assert_eq!(app.fit_detail_scroll(30, 10), 20);
    assert_eq!(app.detail_scroll, 5);
    // content that fits: nothing to scroll
    assert_eq!(app.fit_detail_scroll(3, 10), 0);
    assert_eq!(app.detail_scroll, 0);
}

#[test]
fn dismiss_error_clears_only_the_error() {
    let mut app = App::new();
    app.apply_status(Err("boom".to_string()));
    assert_eq!(app.error.as_deref(), Some("boom"));
    app.dismiss_error();
    assert_eq!(app.error, None);
    assert!(matches!(app.mode, ViewMode::List));
}

#[test]
fn refreshed_status_keeps_old_text_on_failure() {
    let mut app = App::new();
    app.apply_refreshed_status(Ok("active".to_string()));
    assert_eq!(app.detail_status, "active");
    assert_eq!(app.error, None);

    app.apply_refreshed_status(Err("no such unit".to_string()));
    assert_eq!(app.detail_status, "active");
    assert_eq!(app.error.as_deref(), Some("no such unit"));
}

#[test]
fn toggle_result_asks_for_refetch_only_on_success() {
    let mut app = App::new();
    assert!(!app.apply_toggle_result(Err("denied".to_string())));
    assert_eq!(app.error.as_deref(), Some("denied"));

    assert!(app.apply_toggle_result(Ok(())));
    assert_eq!(app.error, None);
}
