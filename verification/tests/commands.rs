use systemd_dashboard::systemd::{command_line, metadata_command, metadata_from_output, UnitCommand};

fn line(c: &UnitCommand) -> (String, Vec<String>) {
    command_line(c)
}

#[test]
fn list_and_unit_commands() {
    assert_eq!(
        line(&UnitCommand::ListTimers),
        (
            "systemctl".to_string(),
            vec!["--user", "list-timers", "--all", "--output", "json", "--no-pager"]
                .into_iter()
                .map(String::from)
                .collect::<Vec<_>>()
        )
    );
    assert_eq!(
        line(&UnitCommand::Status("a.timer".into())).1,
        vec!["--user", "show", "--no-pager", "--", "a.timer"]
    );
    let (prog, args) = line(&UnitCommand::Logs("a.service".into()));
    assert_eq!(prog, "journalctl");
    assert_eq!(args, vec!["--user", "-u", "a.service", "-n", "50", "--no-pager"]);
    assert_eq!(
        line(&UnitCommand::ServiceFile("a.service".into())).1,
        vec!["--user", "cat", "--no-pager", "--", "a.service"]
    );
    assert_eq!(
        line(&UnitCommand::Toggle("a.timer".into(), true)).1,
        vec!["--user", "start", "--", "a.timer"]
    );
    assert_eq!(
        line(&UnitCommand::Toggle("a.timer".into(), false)).1,
        vec!["--user", "stop", "--", "a.timer"]
    );
}

#[test]
fn metadata_query_lists_properties_then_units() {
    assert!(metadata_command(vec![]).is_none());
    let cmd = metadata_command(vec!["a.timer".into(), "b.timer".into()]).unwrap();
    let (prog, args) = line(&cmd);
    assert_eq!(prog, "systemctl");
    assert_eq!(&args[..2], &["--user", "show"]);
    assert_eq!(args.iter().filter(|a| *a == "-p").count(), 10);
    assert_eq!(&args[args.len() - 3..], &["--", "a.timer", "b.timer"]);
    assert!(args.contains(&"TimersMonotonic".to_string()));
}

#[test]
fn fetch_timer_metadata_empty_units_returns_empty_maps() {
    assert!(metadata_command(vec![]).is_none());
    let (schedules, load_states) = metadata_from_output(false, b"");
    assert!(schedules.is_empty());
    assert!(load_states.is_empty());
}

#[test]
fn metadata_output_is_parsed_only_on_success() {
    let out = b"Id=a.timer\nLoadState=loaded\nOnCalendar=daily\n";
    let (schedules, load_states) = metadata_from_output(true, out);
    assert_eq!(schedules.get("a.timer").unwrap(), "daily");
    assert_eq!(load_states.get("a.timer").unwrap(), "loaded");
    let (schedules, load_states) = metadata_from_output(false, out);
    assert!(schedules.is_empty());
    assert!(load_states.is_empty());
}
