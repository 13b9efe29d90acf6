use process_control::audit::audit_line;
use process_control::capture::{combined_capture, exit_code_of};

#[test]
fn captured_stdout_alone_is_returned_exactly() {
    let combined = combined_capture(b"known text\n", b"");
    assert_eq!(combined, "known text\n");
    assert_eq!(exit_code_of(Some(0)), 0);
}

#[test]
fn both_streams_are_joined_by_one_newline() {
    let combined = combined_capture(b"out line", b"err line");
    assert_eq!(combined, "out line\nerr line");
}

#[test]
fn empty_stream_inserts_no_separator() {
    assert_eq!(combined_capture(b"", b"only err"), "only err");
    assert_eq!(combined_capture(b"only out", b""), "only out");
    assert_eq!(combined_capture(b"", b""), "");
}

#[test]
fn invalid_bytes_are_replaced_not_rejected() {
    let combined = combined_capture(&[0xff, 0xfe], b"");
    assert_eq!(combined, "\u{fffd}\u{fffd}");
}

#[test]
fn abnormal_termination_reports_minus_one() {
    assert_eq!(exit_code_of(None), -1);
    assert_eq!(exit_code_of(Some(137)), 137);
}

#[test]
fn audit_line_names_command_and_arguments() {
    let args = vec!["-l".to_string(), "-a".to_string()];
    assert_eq!(audit_line("ls", &args), "Spawning process: ls -l -a\n");
}

#[test]
fn audit_line_with_no_arguments_keeps_the_space() {
    let args: Vec<String> = Vec::new();
    assert_eq!(audit_line("sleep", &args), "Spawning process: sleep \n");
}
