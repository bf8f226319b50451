use systemd_dashboard::systemd::{
    command_outcome, command_output_text, normalize_service_file_output, service_file_result,
};

#[test]
fn service_file_output_preserves_successful_stdout() {
    let output = normalize_service_file_output(b"[Unit]\nDescription=Example\n", b"", true);
    assert_eq!(output.unwrap(), "[Unit]\nDescription=Example\n");
}

#[test]
fn service_file_output_reports_command_stderr() {
    let output = normalize_service_file_output(b"", b"No files found\n", false);
    assert_eq!(output.unwrap_err(), "Service file unavailable: No files found");
}

#[test]
fn service_file_output_reports_empty_success_output() {
    let output = normalize_service_file_output(b"", b"", true);
    assert_eq!(output.unwrap_err(), "Service file unavailable: empty output");
}

#[test]
fn fetch_service_file_content_empty_failure_stderr() {
    let res = normalize_service_file_output(b"", b"", false);
    assert_eq!(res.unwrap_err(), "Service file unavailable: empty output");
}

#[test]
fn normalize_service_file_output_whitespace_only_success() {
    let res = normalize_service_file_output(b"   \n  ", b"", true);
    assert!(res.is_err());
}


#[test]
fn failed_command_ignores_its_stdout() {
    let res = normalize_service_file_output(b"[Unit]\n", b"  Unit x not found.  \n", false);
    assert_eq!(res.unwrap_err(), "Service file unavailable: Unit x not found.");
}

#[test]
fn invalid_utf8_is_replaced() {
    let res = normalize_service_file_output(b"[Unit]\xff\n", b"", true);
    assert_eq!(res.unwrap(), "[Unit]\u{FFFD}\n");
}

#[test]
fn decoded_outputs_follow_the_same_rules() {
    assert_eq!(service_file_result("x", "", true).unwrap(), "x");
    assert_eq!(
        service_file_result(" ", " oops ", false).unwrap_err(),
        "Service file unavailable: oops"
    );
}

#[test]
fn command_outcome_reports_stderr_on_failure() {
    assert!(command_outcome(true, b"ignored").is_ok());
    assert_eq!(command_outcome(false, b"Failed to start x.timer\n").unwrap_err(), "Failed to start x.timer\n");
}

#[test]
fn failed_command_with_blank_stderr_still_reports_an_error() {
    assert_eq!(
        command_outcome(false, b"").unwrap_err(),
        "command failed without an error message"
    );
    assert_eq!(
        command_outcome(false, b"  \n\t").unwrap_err(),
        "command failed without an error message"
    );
    assert!(!command_outcome(false, b"").unwrap_err().is_empty());
}

#[test]
fn command_output_is_decoded_as_text() {
    assert_eq!(command_output_text(b"ActiveState=active\n"), "ActiveState=active\n");
    assert_eq!(command_output_text(b"a\xffb"), "a\u{fffd}b");
}
