use maestro::cli::{
    classify, parse_i32_text, parse_u16, parse_u32, sync_command_output, Command, HELP, VERSION,
};

fn args(values: &[&str]) -> Vec<String> {
    values.iter().map(|v| v.to_string()).collect()
}

#[test]
fn empty_and_unknown_invocations_are_forwarded() {
    assert_eq!(classify(args(&[])), Ok(Command::Forward));
    assert_eq!(classify(args(&["exec", "--help"])), Ok(Command::Forward));
    assert_eq!(classify(args(&["--headless"])), Ok(Command::Forward));
    assert_eq!(classify(args(&["fix the bug", "--version"])), Ok(Command::Forward));
}

#[test]
fn help_and_version_are_decided_by_the_first_argument() {
    for flag in ["--version", "-V", "-v"] {
        assert_eq!(classify(args(&[flag, "serve"])), Ok(Command::Version));
    }
    for flag in ["--help", "-h", "--help-hidden", "--help-all"] {
        assert_eq!(classify(args(&[flag, "--port"])), Ok(Command::Help));
    }
}

#[test]
fn serve_reads_its_options_in_both_forms() {
    assert_eq!(
        classify(args(&["serve"])),
        Ok(Command::Serve { port: None, parent_pid: None, liveness_fd: None })
    );
    assert_eq!(
        classify(args(&["serve", "--port", "8080", "--parent-pid=42"])),
        Ok(Command::Serve { port: Some(8080), parent_pid: Some(42), liveness_fd: None })
    );
    assert_eq!(
        classify(args(&["serve", "--port=1", "--port", "+2", "--liveness-fd", "3"])),
        Ok(Command::Serve { port: Some(2), parent_pid: None, liveness_fd: Some(3) })
    );
}

#[test]
fn serve_rejects_bad_values_and_arguments() {
    assert_eq!(classify(args(&["serve", "--port"])), Err("--port requires a value".to_string()));
    assert_eq!(
        classify(args(&["serve", "--port", "65536"])),
        Err("invalid serve port: 65536".to_string())
    );
    assert_eq!(
        classify(args(&["serve", "--port=-1"])),
        Err("invalid serve port: -1".to_string())
    );
    assert_eq!(
        classify(args(&["serve", "--parent-pid", "x"])),
        Err("invalid parent pid: x".to_string())
    );
    assert_eq!(
        classify(args(&["serve", "--liveness-fd"])),
        Err("--liveness-fd requires a value".to_string())
    );
    assert_eq!(
        classify(args(&["serve", "hello"])),
        Err("`maestro serve` does not accept prompt arguments or option `hello`".to_string())
    );
    assert_eq!(
        classify(args(&["serve", "--parent-pid", "7", "--liveness-fd", "3"])),
        Err("--parent-pid and --liveness-fd are mutually exclusive".to_string())
    );
    assert_eq!(
        classify(args(&["serve", "--parent-pid=0"])),
        Err("--parent-pid must be a positive process id".to_string())
    );
    assert_eq!(
        classify(args(&["serve", "--liveness-fd=-4"])),
        Err("--liveness-fd must be a non-negative file descriptor".to_string())
    );
}

#[test]
fn decimal_parsing_matches_the_standard_library() {
    for text in ["", "+", "-", "0", "+7", "-7", "65535", "65536", "007", " 1", "1_0", "4294967295",
        "4294967296", "2147483647", "2147483648", "-2147483648", "-2147483649", "-0", "+-1",
        "99999999999999999999999"]
    {
        assert_eq!(parse_u16(text), text.parse::<u16>().ok(), "{text:?}");
        assert_eq!(parse_u32(text), text.parse::<u32>().ok(), "{text:?}");
        assert_eq!(parse_i32_text(text), text.parse::<i32>().ok(), "{text:?}");
    }
}

#[test]
fn help_and_version_are_handled_without_async_runtime() {
    assert_eq!(sync_command_output(&Command::Help), Some(HELP));
    assert_eq!(sync_command_output(&Command::Version), Some(VERSION));
}

#[test]
fn only_help_and_version_print_before_a_runtime_starts() {
    assert!(HELP.starts_with("Deixic Code\n\nUsage:\n"));
    assert_eq!(VERSION, "deixic-code 0.1.0");
    assert_eq!(sync_command_output(&Command::Forward), None);
    assert_eq!(
        sync_command_output(&Command::Serve { port: None, parent_pid: None, liveness_fd: None }),
        None
    );
}
