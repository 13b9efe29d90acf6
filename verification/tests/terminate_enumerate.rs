use process_control::enumerate::{
    find_pids_posix, find_pids_windows, parse_posix_line, parse_windows_line,
};
use process_control::terminate::{kill_args, kill_outcome, taskkill_args};

#[test]
fn kill_args_carry_interrupt_signal_and_pid() {
    assert_eq!(kill_args(42), vec!["-2", "42"]);
    assert_eq!(kill_args(0), vec!["-2", "0"]);
}

#[test]
fn taskkill_args_carry_pid_flag_and_pid() {
    assert_eq!(taskkill_args(4294967295), vec!["/PID", "4294967295"]);
}

#[test]
fn successful_kill_command_is_success() {
    assert!(kill_outcome(true, "").is_ok());
}

#[test]
fn failing_kill_command_surfaces_diagnostics() {
    let err = kill_outcome(false, "kill: No such process").unwrap_err();
    assert_eq!(err.message, "Kill command failed: kill: No such process");
}

#[test]
fn posix_line_parses_pid_and_command() {
    let parsed = parse_posix_line("  417 /usr/bin/bash --login").unwrap();
    assert_eq!(parsed.0, 417);
    assert_eq!(parsed.1, "/usr/bin/bash --login");
}

#[test]
fn posix_malformed_lines_are_rejected() {
    assert!(parse_posix_line("").is_none());
    assert!(parse_posix_line("no digits here").is_none());
    assert!(parse_posix_line("12x cmd").is_none());
    assert!(parse_posix_line("99999999999 cmd").is_none());
}

#[test]
fn windows_line_parses_name_and_pid() {
    let parsed = parse_windows_line("\"bash.exe\",\"417\",\"Console\",\"1\"").unwrap();
    assert_eq!(parsed.0, "bash.exe");
    assert_eq!(parsed.1, 417);
}

#[test]
fn windows_malformed_lines_are_rejected() {
    assert!(parse_windows_line("").is_none());
    assert!(parse_windows_line("onlyonefield").is_none());
    assert!(parse_windows_line("\"name\",\"notanumber\"").is_none());
}

#[test]
fn find_posix_filters_case_insensitively_in_order() {
    let listing = b"  417 /usr/bin/Bash --login\n  9 /sbin/init\n  52 BASH -c sleep\n";
    assert_eq!(find_pids_posix(listing, "bash"), vec![417, 52]);
}

#[test]
fn find_posix_skips_garbled_lines() {
    let listing = b"garbled\n  417 bash\nalso garbled 12x\n";
    assert_eq!(find_pids_posix(listing, "bash"), vec![417]);
}

#[test]
fn find_posix_without_match_is_empty_not_an_error() {
    let listing = b"  417 /usr/bin/bash\n  9 /sbin/init\n";
    assert_eq!(find_pids_posix(listing, "no such process"), Vec::<u32>::new());
    assert_eq!(find_pids_posix(b"", "bash"), Vec::<u32>::new());
}

#[test]
fn find_windows_matches_display_name_only() {
    let listing = b"\"BASH.exe\",\"417\",\"Console\"\r\n\"init.exe\",\"9\",\"Console\"\r\n";
    assert_eq!(find_pids_windows(listing, "bash"), vec![417]);
    assert_eq!(find_pids_windows(listing, "console"), Vec::<u32>::new());
}

#[test]
fn find_windows_without_match_is_empty_not_an_error() {
    assert_eq!(find_pids_windows(b"", "bash"), Vec::<u32>::new());
    assert_eq!(find_pids_windows(b"garbage\r\n", "bash"), Vec::<u32>::new());
}
