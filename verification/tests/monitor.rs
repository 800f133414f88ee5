use iris_devices::monitor::{find_device, parse_request, split_words, MonitorRequest};

#[test]
fn words_are_split_on_whitespace() {
    assert_eq!(split_words("  mem  0x100\t 4 \r\n"), vec!["mem", "0x100", "4"]);
    assert!(split_words("   ").is_empty());
    assert!(split_words("").is_empty());
}

#[test]
fn session_commands() {
    assert!(matches!(parse_request("\r\n"), MonitorRequest::Empty));
    assert!(matches!(parse_request(" quit"), MonitorRequest::Quit));
    assert!(matches!(parse_request("exit now"), MonitorRequest::Quit));
    assert!(matches!(parse_request("help"), MonitorRequest::Help));
    match parse_request("regs  all\n") {
        MonitorRequest::Command(cmd, args) => {
            assert_eq!(cmd, "regs");
            assert_eq!(args, vec!["all"]);
        }
        other => panic!("unexpected {:?}", other),
    }
    match parse_request("quitting") {
        MonitorRequest::Command(cmd, args) => {
            assert_eq!(cmd, "quitting");
            assert!(args.is_empty());
        }
        other => panic!("unexpected {:?}", other),
    }
}

#[test]
fn first_device_listing_a_command_answers_it() {
    let devices = vec![
        vec!["locks".to_string()],
        vec!["timer".to_string(), "regs".to_string()],
        vec!["regs".to_string()],
    ];
    assert_eq!(find_device(&devices, "regs"), Some(1));
    assert_eq!(find_device(&devices, "locks"), Some(0));
    assert_eq!(find_device(&devices, "reg"), None);
    assert_eq!(find_device(&Vec::new(), "regs"), None);
}

use iris_devices::locks::{lock_status_report, locks_command, wants_lock_states};

#[test]
fn lock_report_text() {
    let none: Vec<(String, bool)> = Vec::new();
    assert_eq!(lock_status_report(&none), "=== System Lock Status (0 registered) ===\n  (all locks free)\n");
    let entries = vec![("cpu".to_string(), true), ("a-name-longer-than-the-fifty-character-column-width!".to_string(), false)];
    let text = lock_status_report(&entries);
    let expected = format!(
        "=== System Lock Status (2 registered) ===\n  {:50} LOCKED\n  {:50} free\n",
        "cpu", "a-name-longer-than-the-fifty-character-column-width!"
    );
    assert_eq!(text, expected);
    assert_eq!(locks_command("locks", &entries), Ok(expected));
    assert_eq!(locks_command("lock", &entries), Err("Unknown command: lock".to_string()));
    assert!(wants_lock_states("locks"));
    assert!(!wants_lock_states("lock"));
    assert!(!wants_lock_states("locks "));
    assert_eq!(locks_command("help", &Vec::new()), Err("Unknown command: help".to_string()));
}
