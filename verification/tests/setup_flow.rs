use fluffsetup::backend::{SetupAction, SetupBackend, SetupEvent};
use fluffsetup::commands::{
    apply_gui_settings, apply_settings, configure_permanent_user, create_permanent_user, ApplyStep,
    SudoCommand,
};
use fluffsetup::details::{
    check_setup_details, parse_setup_details, setup_details_text, setup_failure_message, strip_ansi,
    SetupDetails,
};
use fluffsetup::progress::SetupProgress;

fn progress(page: i32, hostname: &str, display_name: &str, username: &str, created: bool) -> SetupProgress {
    SetupProgress {
        page,
        hostname: hostname.to_string(),
        display_name: display_name.to_string(),
        username: username.to_string(),
        account_created: created,
    }
}

fn args(command: &SudoCommand) -> Vec<&str> {
    command.args.iter().map(|a| a.as_str()).collect()
}

#[test]
fn setup_runs_through_every_stage() {
    let mut backend = SetupBackend::new();
    match backend.start_setup("", "  ", "secret") {
        SetupAction::ResolveHostname => {}
        _ => panic!("expected the system name to be resolved"),
    }
    match backend.handle(SetupEvent::HostnameResolved("FL-AB1234".to_string())) {
        SetupAction::LoadProgress => {}
        _ => panic!("expected the recovery record to be read"),
    }
    match backend.handle(SetupEvent::ProgressLoaded(SetupProgress::default())) {
        SetupAction::GenerateUsername(name) => assert_eq!(name, "User"),
        _ => panic!("expected a login name to be generated"),
    }
    match backend.handle(SetupEvent::UsernameGenerated("user".to_string())) {
        SetupAction::CheckAccount { username, display_name } => {
            assert_eq!(username, "user");
            assert_eq!(display_name, "User");
        }
        _ => panic!("expected the account to be checked"),
    }
    match backend.handle(SetupEvent::AccountChecked { exists: false, matches: false }) {
        SetupAction::SaveProgress(record) => {
            assert_eq!(record, progress(2, "FL-AB1234", "User", "user", false))
        }
        _ => panic!("expected the reservation to be recorded"),
    }
    assert!(!backend.busy());
    match backend.handle(SetupEvent::ProgressSaved(None)) {
        SetupAction::Apply(details) => {
            assert_eq!(details.hostname, "FL-AB1234");
            assert_eq!(details.display_name, "User");
            assert_eq!(details.username, "user");
            assert_eq!(details.password, "secret");
        }
        _ => panic!("expected the privileged step to start"),
    }
    assert!(backend.busy());
    assert!(matches!(backend.start_setup("x", "y", "z"), SetupAction::Nothing));
    assert!(matches!(backend.handle(SetupEvent::Finished(None)), SetupAction::Nothing));
    assert!(!backend.busy());
    assert!(backend.completed());
    assert_eq!(backend.error_message(), "");
    assert!(matches!(backend.start_setup("x", "y", "z"), SetupAction::Nothing));
}

#[test]
fn refused_entries_show_their_error() {
    let mut backend = SetupBackend::new();
    assert!(matches!(backend.start_setup("bad name", "Ada", "pw"), SetupAction::Nothing));
    assert_eq!(
        backend.error_message(),
        "Spaces and other whitespace are not allowed in the system name."
    );
    assert!(matches!(backend.start_setup("pc", "A:da", "pw"), SetupAction::Nothing));
    assert_eq!(backend.error_message(), "The name cannot contain a colon (:)");
    assert!(matches!(backend.start_setup("pc", "Ada", ""), SetupAction::Nothing));
    assert_eq!(backend.error_message(), "The password cannot be blank");
    assert!(!backend.busy());
}

#[test]
fn reserved_login_name_is_reused() {
    let mut backend = SetupBackend::new();
    assert!(matches!(backend.start_setup("pc", "Ada", "pw"), SetupAction::LoadProgress));
    match backend.handle(SetupEvent::ProgressLoaded(progress(2, "pc", "Ada", "ada7", true))) {
        SetupAction::CheckAccount { username, .. } => assert_eq!(username, "ada7"),
        _ => panic!("expected the reserved name to be checked"),
    }
}

#[test]
fn foreign_account_stops_setup() {
    let mut backend = SetupBackend::new();
    backend.start_setup("pc", "Ada", "pw");
    backend.handle(SetupEvent::ProgressLoaded(progress(2, "pc", "Ada", "ada", false)));
    assert!(matches!(
        backend.handle(SetupEvent::AccountChecked { exists: true, matches: false }),
        SetupAction::Nothing
    ));
    assert_eq!(
        backend.error_message(),
        "The reserved account name belongs to a different system account. FluffSetup will not modify it."
    );
}

#[test]
fn failures_of_saving_and_applying_are_shown() {
    let mut backend = SetupBackend::new();
    backend.start_setup("pc", "Ada", "pw");
    backend.handle(SetupEvent::ProgressLoaded(progress(2, "pc", "Ada", "ada", false)));
    backend.handle(SetupEvent::AccountChecked { exists: true, matches: true });
    backend.handle(SetupEvent::ProgressSaved(Some("disk full".to_string())));
    assert_eq!(
        backend.error_message(),
        "Could not reserve the account for recovery: disk full"
    );
    assert!(!backend.busy());

    backend.start_setup("pc", "Ada", "pw");
    backend.handle(SetupEvent::ProgressLoaded(progress(2, "pc", "Ada", "ada", false)));
    match backend.handle(SetupEvent::AccountChecked { exists: true, matches: true }) {
        SetupAction::SaveProgress(record) => assert!(record.account_created),
        _ => panic!("expected the reservation to be recorded"),
    }
    backend.handle(SetupEvent::ProgressSaved(None));
    backend.handle(SetupEvent::Finished(Some("chpasswd failed.".to_string())));
    assert!(!backend.completed());
    assert!(!backend.busy());
    assert_eq!(backend.error_message(), "chpasswd failed.");
}

#[test]
fn page_hints_and_saved_values() {
    let backend = SetupBackend::new();
    assert_eq!(backend.validate_hostname(""), "");
    assert_eq!(
        backend.validate_hostname("-x"),
        "The system name cannot start with a dash (-)."
    );
    assert_eq!(backend.validate_hostname("ok"), "");
    assert_eq!(backend.validate_name("   "), "");
    assert_eq!(backend.validate_name("a:b"), "The name cannot contain a colon (:)");
    assert_eq!(backend.default_name(), "User");
    let record = progress(4, "pc", "Ada", "ada", true);
    assert_eq!(backend.resume_page(&record), 4);
    assert_eq!(backend.saved_hostname(&record), "pc");
    assert_eq!(backend.saved_name(&record), "Ada");
    let passwd = "ada:x:1000:1000:Ada:/home/ada:/bin/zsh\n";
    assert!(backend.account_already_created(&record, Some(passwd)));
    assert!(!backend.account_already_created(&record, None));
    assert!(!backend.account_already_created(&progress(4, "pc", "Ada", "", true), Some(passwd)));
}

#[test]
fn next_keeps_the_reservation_only_for_the_same_name() {
    let backend = SetupBackend::new();
    let previous = progress(2, "pc", "Ada", "ada", true);
    assert_eq!(
        backend.save_progress(1, "pc2", "Ada", &previous),
        progress(1, "pc2", "Ada", "ada", true)
    );
    assert_eq!(
        backend.save_progress(1, "pc2", "Bea", &previous),
        progress(1, "pc2", "Bea", "", false)
    );
}

#[test]
fn privileged_commands_are_spelled_out() {
    let create = create_permanent_user("Shai Zedaka", "shaiz");
    assert_eq!(create.program, "/usr/bin/useradd");
    assert_eq!(
        args(&create),
        vec!["-m", "-G", "uucp,wheel,kvm,libvirt", "-s", "/bin/zsh", "-c", "Shai Zedaka", "shaiz"]
    );
    let configure = configure_permanent_user("shaiz", "pw");
    assert_eq!(configure.len(), 5);
    assert_eq!(args(&configure[0]), vec!["-m", "u:libvirt-qemu:rwx", "/home/shaiz"]);
    assert_eq!(
        args(&configure[2]),
        vec!["-i", "s|^HomeUrl=/home/|HomeUrl=/home/shaiz/|", "/home/shaiz/.config/dolphinrc"]
    );
    assert_eq!(args(&configure[3]), vec!["root:root", "/home/shaiz/Desktop/trash:⁄.desktop"]);
    assert_eq!(configure[4].program, "/usr/bin/chpasswd");
    assert!(configure[4].args.is_empty());
    assert_eq!(configure[4].input.as_deref(), Some("shaiz:pw\n"));
    let all = apply_settings("pc", "Shai Zedaka", "shaiz", "pw");
    assert_eq!(all.len(), 7);
    assert_eq!(all[0].program, "/usr/bin/hostnamectl");
    assert_eq!(args(&all[0]), vec!["set-hostname", "pc"]);
    assert_eq!(all[1].program, "/usr/bin/useradd");
}

#[test]
fn interface_setup_creates_reuses_or_refuses_the_account() {
    let fresh = apply_gui_settings("pc", "Ada", "ada", "pw", false, false);
    assert_eq!(fresh.len(), 8);
    assert!(matches!(&fresh[1], ApplyStep::Run(c) if c.program == "/usr/bin/useradd"));
    assert!(matches!(&fresh[2], ApplyStep::RecordAccount(p) if p.account_created && p.page == 2));
    let reused = apply_gui_settings("pc", "Ada", "ada", "pw", true, true);
    assert_eq!(reused.len(), 7);
    assert!(matches!(&reused[1], ApplyStep::RecordAccount(_)));
    let refused = apply_gui_settings("pc", "Ada", "ada", "pw", true, false);
    assert_eq!(refused.len(), 2);
    assert!(matches!(&refused[1], ApplyStep::Stop(m) if m.starts_with("The reserved account name now belongs")));
}

#[test]
fn details_reach_the_privileged_step_unchanged() {
    let text = setup_details_text("pc", "Ada Lovelace", "adal", "pass\nword");
    assert_eq!(text, "pc\nAda Lovelace\nadal\npass\nword");
    let details = parse_setup_details(&text);
    assert_eq!(details.hostname, "pc");
    assert_eq!(details.display_name, "Ada Lovelace");
    assert_eq!(details.username, "adal");
    assert_eq!(details.password, "pass\nword");
    let windows = parse_setup_details("pc\r\nAda\r\r\nada\r\npw\r\n");
    assert_eq!(windows.hostname, "pc");
    assert_eq!(windows.display_name, "Ada");
    assert_eq!(windows.password, "pw");
    let short = parse_setup_details("pc");
    assert_eq!(short.display_name, "");
    assert_eq!(short.password, "");
}

#[test]
fn privileged_step_checks_details_in_order() {
    let details = |h: &str, d: &str, u: &str, p: &str| SetupDetails {
        hostname: h.to_string(),
        display_name: d.to_string(),
        username: u.to_string(),
        password: p.to_string(),
    };
    assert_eq!(
        check_setup_details(&details("", "Ada", "ada", "pw")).unwrap_err(),
        "The system name cannot be blank"
    );
    assert_eq!(
        check_setup_details(&details("pc", "A:da", "ada", "pw")).unwrap_err(),
        "The name cannot contain a colon (:)"
    );
    assert_eq!(
        check_setup_details(&details("pc", "", "ada", "")).unwrap_err(),
        "The password cannot be blank."
    );
    assert_eq!(
        check_setup_details(&details("pc", "", "Ada", "pw")).unwrap_err(),
        "The user name contains uppercase letters, only lowercase letters are allowed"
    );
    assert!(check_setup_details(&details("pc", " ", "ada", "pw")).is_ok());
}

#[test]
fn failure_messages_lose_escape_sequences() {
    assert_eq!(strip_ansi("\u{1b}[1;31mError:\u{1b}[0m boom"), "Error: boom");
    assert_eq!(strip_ansi("plain"), "plain");
    assert_eq!(strip_ansi("cut\u{1b}[12"), "cut");
    assert_eq!(setup_failure_message("\n\u{1b}[1;31mError:\u{1b}[0m boom\n"), "Error: boom");
    assert_eq!(
        setup_failure_message(" \u{1b}[0m \n"),
        "Setup could not be completed. Review your details and try again."
    );
}
