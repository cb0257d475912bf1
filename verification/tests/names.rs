use fluffsetup::account::{
    account_matches_setup_identity_in, default_display_name, effective_display_name,
    validate_display_name, validate_username,
};
use fluffsetup::hostname::{current_or_generated_hostname, generate_hostname, validate_hostname};
use fluffsetup::transliterate::{fallback_transliteration, transliterate_word};
use fluffsetup::username::{
    generated_username, normalized_username_word, unique_username_from_base,
    username_base_from_display_name,
};

fn without_icu(_word: &str) -> Option<String> {
    None
}

#[test]
fn validates_hostnames() {
    assert!(validate_hostname("fluff-laptop").is_ok());
    assert!(validate_hostname("FL-PC.example").is_ok());
    assert_eq!(
        validate_hostname("-bad").unwrap_err(),
        "The system name cannot start with a dash (-)."
    );
    assert_eq!(
        validate_hostname("bad.").unwrap_err(),
        "The system name cannot end with a dot (.)."
    );
    assert_eq!(
        validate_hostname("bad name").unwrap_err(),
        "Spaces and other whitespace are not allowed in the system name."
    );
    assert_eq!(
        validate_hostname("bad@name!").unwrap_err(),
        "The characters '@!' are not allowed. Use English letters, numbers, dashes (-), and dots (.) only."
    );
    assert_eq!(
        validate_hostname("שלום").unwrap_err(),
        "The characters 'שלום' are not allowed. Use English letters, numbers, dashes (-), and dots (.) only."
    );
    assert_eq!(
        validate_hostname(&"a".repeat(256)).unwrap_err(),
        "The system name is too long. Use no more than 255 characters."
    );
}

#[test]
fn validates_user_names() {
    assert!(validate_username("shai").is_ok());
    assert!(validate_username("fluff_user-1").is_ok());
    assert!(validate_username("Fluff").is_err());
    assert!(validate_username("fluffsetup").is_err());
    assert!(validate_username("1234").is_err());
}

#[test]
fn validates_display_names_without_restricting_normal_names() {
    assert!(validate_display_name("Shai Zedaka").is_ok());
    assert!(validate_display_name("O'Connor-Smith").is_ok());
    assert!(validate_display_name("יעקוב כהן").is_ok());
    assert!(validate_display_name("").is_ok());
    assert!(validate_display_name(" ").is_ok());
    assert!(validate_display_name("Name:Root").is_err());
    assert!(validate_display_name("Name\nRoot").is_err());
}

#[test]
fn derives_expected_internal_usernames() {
    for (display_name, expected) in [
        ("shy", "shy"),
        ("Shy", "shy"),
        ("SHY", "shy"),
        ("Shai", "shai"),
        ("Shai Zedaka", "shaiz"),
        ("John Michael Smith", "johnms"),
        ("יעקוב", "yakov"),
        ("יעקוב כהן", "yakovc"),
    ] {
        assert_eq!(username_base_from_display_name(display_name, &without_icu), expected);
    }
}

#[test]
fn adds_a_numeric_suffix_until_the_username_is_unused() {
    let generated =
        unique_username_from_base("shy", &|candidate: &str| matches!(candidate, "shy" | "shy2"));
    assert_eq!(generated.as_deref(), Some("shy3"));

    let protected_system_name =
        unique_username_from_base("root", &|candidate: &str| candidate == "root");
    assert_eq!(protected_system_name.as_deref(), Some("root2"));
}

#[test]
fn generated_username_base_is_safe_even_without_transliterable_text() {
    let generated = username_base_from_display_name("🎉 🎈", &without_icu);
    assert_eq!(generated, "user");
    assert!(validate_username(&generated).is_ok());
}

#[test]
fn hostname_errors_follow_the_rule_order() {
    assert_eq!(validate_hostname("").unwrap_err(), "The system name cannot be blank");
    assert_eq!(
        validate_hostname(".bad").unwrap_err(),
        "The system name cannot start with a dot (.)."
    );
    assert_eq!(
        validate_hostname("bad-").unwrap_err(),
        "The system name cannot end with a dash (-)."
    );
    assert_eq!(
        validate_hostname("a_b").unwrap_err(),
        "The character '_' is not allowed. Use English letters, numbers, dashes (-), and dots (.) only."
    );
    assert_eq!(
        validate_hostname("a__b_").unwrap_err(),
        "The character '_' is not allowed. Use English letters, numbers, dashes (-), and dots (.) only."
    );
    assert_eq!(
        validate_hostname("bad\tname").unwrap_err(),
        "Spaces and other whitespace are not allowed in the system name."
    );
    assert!(validate_hostname(&"a".repeat(255)).is_ok());
    // 128 two-byte characters take 256 bytes.
    assert_eq!(
        validate_hostname(&"é".repeat(128)).unwrap_err(),
        "The system name is too long. Use no more than 255 characters."
    );
}

#[test]
fn user_name_errors_follow_the_rule_order() {
    assert_eq!(validate_username("").unwrap_err(), "The user name cannot be blank");
    assert_eq!(
        validate_username(&"a".repeat(33)).unwrap_err(),
        "The user name must be 32 characters or less"
    );
    assert!(validate_username(&"a".repeat(32)).is_ok());
    assert_eq!(validate_username("a b").unwrap_err(), "The user name cannot have spaces");
    assert_eq!(
        validate_username("_ab").unwrap_err(),
        "The user name cannot start or end with '_' or '-'"
    );
    assert_eq!(
        validate_username("ab-").unwrap_err(),
        "The user name cannot start or end with '_' or '-'"
    );
    assert_eq!(
        validate_username("a.b").unwrap_err(),
        "The user name cannot have any special characters (Check requirements and try again)"
    );
    assert_eq!(
        validate_username("aB").unwrap_err(),
        "The user name contains uppercase letters, only lowercase letters are allowed"
    );
    assert_eq!(
        validate_username("1ab").unwrap_err(),
        "The user name must start with a lowercase letter"
    );
    assert_eq!(
        validate_username("fluffsetup").unwrap_err(),
        "The user name \"fluffsetup\" is reserved for system setup"
    );
}

#[test]
fn display_name_errors_and_default() {
    assert_eq!(
        validate_display_name(&"x".repeat(129)).unwrap_err(),
        "The name must be 128 characters or less"
    );
    assert!(validate_display_name(&"ש".repeat(128)).is_ok());
    assert_eq!(validate_display_name("Name:Root").unwrap_err(), "The name cannot contain a colon (:)");
    assert_eq!(
        validate_display_name("Name\u{7f}").unwrap_err(),
        "The name cannot contain control characters"
    );
    assert_eq!(default_display_name(), "User");
    assert_eq!(effective_display_name("  \t"), "User");
    assert_eq!(effective_display_name(" Ada "), " Ada ");
}

#[test]
fn only_recognizes_the_exact_reserved_account_identity() {
    let passwd =
        "root:x:0:0:root:/root:/bin/bash\nshaiz:x:1000:1000:Shai Zedaka:/home/shaiz:/bin/zsh\n";
    assert!(account_matches_setup_identity_in(passwd, "shaiz", "Shai Zedaka"));
    assert!(!account_matches_setup_identity_in(passwd, "shaiz", "Someone Else"));
    assert!(!account_matches_setup_identity_in(passwd, "root", "root"));
}

#[test]
fn account_identity_needs_home_and_shell() {
    let wrong_home = "shaiz:x:1000:1000:Shai Zedaka:/home/other:/bin/zsh\n";
    assert!(!account_matches_setup_identity_in(wrong_home, "shaiz", "Shai Zedaka"));
    let wrong_shell = "shaiz:x:1000:1000:Shai Zedaka:/home/shaiz:/bin/bash";
    assert!(!account_matches_setup_identity_in(wrong_shell, "shaiz", "Shai Zedaka"));
    let crlf = "shaiz:x:1000:1000:Shai Zedaka:/home/shaiz:/bin/zsh\r\n";
    assert!(account_matches_setup_identity_in(crlf, "shaiz", "Shai Zedaka"));
    let short = "shaiz:x:1000:1000:Shai Zedaka:/home/shaiz";
    assert!(!account_matches_setup_identity_in(short, "shaiz", "Shai Zedaka"));
    assert!(!account_matches_setup_identity_in("", "shaiz", "Shai Zedaka"));
}

#[test]
fn fallback_table_spells_latin_and_hebrew() {
    assert_eq!(fallback_transliteration("Zoë Ærø"), "Zoe aero");
    assert_eq!(fallback_transliteration("שלום"), "shlom");
    assert_eq!(fallback_transliteration("צבי"), "tsby");
    assert_eq!(fallback_transliteration("日本"), "");
}

#[test]
fn transliteration_prefers_presets_then_icu_then_the_table() {
    let icu = |word: &str| -> Option<String> { Some(format!("icu-{}", word.len())) };
    assert_eq!(transliterate_word("יעקב", &icu), "yakov");
    assert_eq!(transliterate_word("כהן", &icu), "cohen");
    assert_eq!(transliterate_word("abc", &icu), "icu-3");
    assert_eq!(transliterate_word("Ñu", &without_icu), "nu");
    assert_eq!(normalized_username_word("O'Connor-Smith", &without_icu), "oconnorsmith");
}

#[test]
fn username_bases_handle_digits_and_length() {
    assert_eq!(username_base_from_display_name("2pac", &without_icu), "user2pac");
    assert_eq!(username_base_from_display_name("   ", &without_icu), "user");
    assert_eq!(username_base_from_display_name("Ann 2 Lee", &without_icu), "annl");
    let long = "a".repeat(40);
    assert_eq!(username_base_from_display_name(&long, &without_icu), "a".repeat(32));
}

#[test]
fn numbered_names_keep_within_32_bytes() {
    let base = "b".repeat(32);
    let first_free = unique_username_from_base(&base, &|candidate: &str| candidate.len() == 32 && !candidate.ends_with('2'));
    assert_eq!(first_free, Some(format!("{}2", "b".repeat(31))));
    assert_eq!(unique_username_from_base("", &|_: &str| false).as_deref(), Some("user"));
    let taken_until_ten = unique_username_from_base("ann", &|candidate: &str| candidate != "ann10");
    assert_eq!(taken_until_ten.as_deref(), Some("ann10"));
}

#[test]
fn generated_usernames_skip_the_setup_account_and_existing_ones() {
    let exists = |name: &str| name == "shaiz" || name == "shaiz2";
    assert_eq!(
        generated_username("Shai Zedaka", &without_icu, &exists).as_deref(),
        Some("shaiz3")
    );
    let nobody = |_: &str| false;
    assert_eq!(
        generated_username("Fluff Setup", &without_icu, &nobody).as_deref(),
        Some("fluffs")
    );
    assert_eq!(
        generated_username("fluffsetup", &without_icu, &nobody).as_deref(),
        Some("fluffsetup2")
    );
    assert_eq!(generated_username("", &without_icu, &nobody).as_deref(), Some("user"));
}

#[test]
fn offered_hostnames_are_valid() {
    let name = generate_hostname(Some([0, 25, 9, 10, 255, 3]));
    assert_eq!(name, "FL-AZ9053");
    assert!(validate_hostname(&name).is_ok());
    assert_eq!(generate_hostname(None), "flufflinux");
    assert_eq!(
        current_or_generated_hostname(Some("fluff-pc\n"), Some([1, 2, 3, 4, 5, 6])),
        "fluff-pc"
    );
    assert_eq!(
        current_or_generated_hostname(Some("bad name\n"), Some([1, 2, 3, 4, 5, 6])),
        "FL-BC3456"
    );
    assert_eq!(current_or_generated_hostname(None, None), "flufflinux");
}
