use fluffsetup::cleanup::{
    session_termination_args, temporary_sessions_in, CLEANUP_FILES, SETUP_STATE_FILE,
    SETUP_STATE_TEMP_FILE,
};
use fluffsetup::login_config::without_autologin_section;
use fluffsetup::number::parse_i32_chars;
use fluffsetup::progress::{
    parse_setup_progress, serialize_setup_progress, setup_progress_with_defaults, SetupProgress,
};

#[test]
fn cleanup_covers_every_temporary_payload() {
    for path in [
        SETUP_STATE_FILE,
        SETUP_STATE_TEMP_FILE,
        "/usr/share/wayland-sessions/fluffsetup.desktop",
        "/usr/lib/fluffsetup/fluffsetup-session",
        "/etc/sudoers.d/90-fluffsetup-temporary",
    ] {
        assert!(CLEANUP_FILES.contains(&path));
    }
}

#[test]
fn recovery_state_round_trips_without_a_password() {
    let progress = SetupProgress {
        page: 2,
        hostname: "FL-IW2098".to_string(),
        display_name: "Shai Zedaka".to_string(),
        username: "shaiz".to_string(),
        account_created: false,
    };
    let serialized = serialize_setup_progress(&progress);

    assert_eq!(serialized, "2\nFL-IW2098\nShai Zedaka\nshaiz\nfalse");
    assert_eq!(parse_setup_progress(&serialized), progress);
    assert!(!serialized.to_ascii_lowercase().contains("password"));
}

#[test]
fn older_recovery_state_remains_readable() {
    assert_eq!(
        parse_setup_progress("2\nfluff-pc\nUser"),
        SetupProgress {
            page: 2,
            hostname: "fluff-pc".to_string(),
            display_name: "User".to_string(),
            username: String::new(),
            account_created: false,
        }
    );
}

#[test]
fn recovery_state_replaces_empty_gui_values_with_defaults() {
    let normalized = setup_progress_with_defaults(
        &SetupProgress {
            page: 2,
            hostname: String::new(),
            display_name: "   ".to_string(),
            username: String::new(),
            account_created: false,
        },
        "FL-IW2098",
    );

    assert_eq!(normalized.hostname, "FL-IW2098");
    assert_eq!(normalized.display_name, "User");
}

#[test]
fn recovery_state_rejects_non_resumable_pages() {
    assert_eq!(parse_setup_progress("3\nfluff-pc\nUser").page, 0);
    assert_eq!(parse_setup_progress("999\nfluff-pc\nUser").page, 0);
}

#[test]
fn cleanup_preserves_general_login_settings_and_removes_autologin() {
    let config = "[General]\nNumLock=on\n\n[Autologin]\nUser=fluffsetup\nSession=fluffsetup.desktop\nRelogin=true\n";
    assert_eq!(without_autologin_section(config), "[General]\nNumLock=on\n\n");
}

#[test]
fn recovery_records_round_trip_for_every_resumable_page() {
    for page in [0, 1, 2, 4] {
        let progress = SetupProgress {
            page,
            hostname: String::new(),
            display_name: "יעקוב כהן".to_string(),
            username: "yakovc".to_string(),
            account_created: true,
        };
        let text = serialize_setup_progress(&progress);
        assert_eq!(parse_setup_progress(&text), progress);
    }
}

#[test]
fn damaged_recovery_records_read_as_a_fresh_start() {
    assert_eq!(parse_setup_progress(""), SetupProgress::default());
    assert_eq!(parse_setup_progress("x\ny").page, 0);
    assert_eq!(parse_setup_progress("-1").page, 0);
    assert_eq!(parse_setup_progress("+4\r\nh\r\nd\r\nu\r\ntrue\r\n").page, 4);
    let crlf = parse_setup_progress("4\r\nh\r\nd\r\nu\r\ntrue\r\n");
    assert_eq!(crlf.hostname, "h");
    assert_eq!(crlf.username, "u");
    assert!(crlf.account_created);
    assert!(!parse_setup_progress("1\nh\nd\nu\nTrue").account_created);
    assert_eq!(parse_setup_progress("2\nfluff-pc\nUser").account_created, false);
}

#[test]
fn page_numbers_parse_like_i32() {
    let parse = |s: &str| parse_i32_chars(&s.chars().collect());
    assert_eq!(parse("02"), Some(2));
    assert_eq!(parse("+7"), Some(7));
    assert_eq!(parse("-0"), Some(0));
    assert_eq!(parse("-2147483648"), Some(i32::MIN));
    assert_eq!(parse("2147483647"), Some(i32::MAX));
    assert_eq!(parse("2147483648"), None);
    assert_eq!(parse("99999999999999999999"), None);
    assert_eq!(parse("-"), None);
    assert_eq!(parse(""), None);
    assert_eq!(parse(" 1"), None);
    assert_eq!(parse("1a"), None);
}

#[test]
fn defaults_keep_entered_values() {
    let kept = setup_progress_with_defaults(
        &SetupProgress {
            page: 1,
            hostname: "fluff-pc".to_string(),
            display_name: " Ada ".to_string(),
            username: "ada".to_string(),
            account_created: true,
        },
        "FL-IW2098",
    );
    assert_eq!(kept.hostname, "fluff-pc");
    assert_eq!(kept.display_name, " Ada ");
    assert_eq!(kept.username, "ada");
    assert!(kept.account_created);
}

#[test]
fn autologin_sections_go_whatever_their_case() {
    let config = "[autologin]\nUser=x\n  [General]  \nA=1\n[AUTOLOGIN]\nB=2\r\n[Other]\nC=3";
    assert_eq!(
        without_autologin_section(config),
        "  [General]  \nA=1\n[Other]\nC=3\n"
    );
    assert_eq!(without_autologin_section(""), "");
    assert_eq!(without_autologin_section("A=1"), "A=1\n");
}

#[test]
fn temporary_sessions_are_found_by_user_column() {
    let listing = "  3 1000 fluffsetup seat0 tty1\n  5 1001 shaiz seat0 tty2\nc7 60 fluffsetup\n";
    let sessions = temporary_sessions_in(listing);
    assert_eq!(sessions, vec!["3".to_string(), "c7".to_string()]);
    assert!(temporary_sessions_in("1 fluffsetup\n").is_empty());
    assert_eq!(
        session_termination_args(&sessions),
        vec![
            vec!["terminate-session".to_string(), "3".to_string()],
            vec!["terminate-session".to_string(), "c7".to_string()],
        ]
    );
    assert_eq!(
        session_termination_args(&Vec::new()),
        vec![vec!["terminate-user".to_string(), "fluffsetup".to_string()]]
    );
}
