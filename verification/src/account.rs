//! The account rules: the hidden login name, the display name, and the
//! account that setup reserved.

use vstd::prelude::*;
use vstd::string::*;
use crate::text::{
    chars_of, contains_whitespace, has_whitespace, is_ascii_alphanumeric, is_ascii_digit,
    is_ascii_lowercase, is_ascii_uppercase, is_control, lines, lines_of, split, split_chars,
    spec_is_ascii_alphanumeric, spec_is_ascii_digit, spec_is_ascii_lowercase,
    spec_is_ascii_uppercase, spec_is_control, str_eq, string_from, trim, trim_bounds, utf8_len,
    utf8_len_exceeds, views,
};

verus! {

/// The name of the temporary account that runs setup.
pub const TEMPORARY_USER: &'static str = "fluffsetup";

/// The display name used when none was entered.
pub fn default_display_name() -> (name: &'static str)
    ensures
        name@ == "User"@,
{
    "User"
}

/// A login name character: an ASCII letter or digit, `-` or `_`.
pub open spec fn is_login_char(c: char) -> bool {
    spec_is_ascii_alphanumeric(c) || c == '-' || c == '_'
}

/// What is wrong with `u` as a login name, the first rule it breaks, or
/// `None` where it is acceptable.
pub open spec fn username_problem(u: Seq<char>) -> Option<Seq<char>> {
    if u.len() == 0 {
        Some("The user name cannot be blank"@)
    } else if utf8_len(u) > 32 {
        Some("The user name must be 32 characters or less"@)
    } else if has_whitespace(u) {
        Some("The user name cannot have spaces"@)
    } else if u[0] == '-' || u[0] == '_' || u.last() == '-' || u.last() == '_' {
        Some("The user name cannot start or end with '_' or '-'"@)
    } else if exists|i: int| 0 <= i < u.len() && !is_login_char(#[trigger] u[i]) {
        Some("The user name cannot have any special characters (Check requirements and try again)"@)
    } else if exists|i: int| 0 <= i < u.len() && spec_is_ascii_uppercase(#[trigger] u[i]) {
        Some("The user name contains uppercase letters, only lowercase letters are allowed"@)
    } else if !spec_is_ascii_lowercase(u[0]) {
        Some("The user name must start with a lowercase letter"@)
    } else if forall|i: int| 0 <= i < u.len() ==> spec_is_ascii_digit(#[trigger] u[i]) {
        Some("The user name cannot be numbers only"@)
    } else if u == TEMPORARY_USER@ {
        Some("The user name \"fluffsetup\" is reserved for system setup"@)
    } else {
        None
    }
}

/// Checks a login name against the rules, in order: not blank, at most 32
/// bytes, no white space, not starting or ending with `_` or `-`, only ASCII
/// letters, digits, `-` and `_`, no uppercase letter, starting with a
/// lowercase letter, not digits only, and not the setup account's name.
#[verifier::loop_isolation(false)]
pub fn validate_username(username: &str) -> (r: Result<(), &'static str>)
    ensures
        match r {
            Ok(()) => username_problem(username@) is None,
            Err(e) => username_problem(username@) == Some(e@),
        },
{
    let chars = chars_of(username);
    let n = chars.len();
    if n == 0 {
        return Err("The user name cannot be blank");
    }
    if utf8_len_exceeds(&chars, 32) {
        return Err("The user name must be 32 characters or less");
    }
    if contains_whitespace(&chars) {
        return Err("The user name cannot have spaces");
    }
    if chars[0] == '-' || chars[0] == '_' || chars[n - 1] == '-' || chars[n - 1] == '_' {
        return Err("The user name cannot start or end with '_' or '-'");
    }
    let mut i: usize = 0;
    while i < n
        invariant
            i <= n == chars@.len(),
            forall|j: int| 0 <= j < i ==> is_login_char(#[trigger] chars@[j]),
        decreases n - i,
    {
        let c = chars[i];
        if !(is_ascii_alphanumeric(c) || c == '-' || c == '_') {
            return Err(
                "The user name cannot have any special characters (Check requirements and try again)",
            );
        }
        i = i + 1;
    }
    let mut i: usize = 0;
    while i < n
        invariant
            i <= n == chars@.len(),
            forall|j: int| 0 <= j < i ==> !spec_is_ascii_uppercase(#[trigger] chars@[j]),
        decreases n - i,
    {
        if is_ascii_uppercase(chars[i]) {
            return Err(
                "The user name contains uppercase letters, only lowercase letters are allowed",
            );
        }
        i = i + 1;
    }
    if !is_ascii_lowercase(chars[0]) {
        return Err("The user name must start with a lowercase letter");
    }
    let mut all_digits = true;
    let mut i: usize = 0;
    while i < n
        invariant
            i <= n == chars@.len(),
            all_digits == forall|j: int| 0 <= j < i ==> spec_is_ascii_digit(#[trigger] chars@[j]),
        decreases n - i,
    {
        if !is_ascii_digit(chars[i]) {
            all_digits = false;
        }
        i = i + 1;
    }
    if all_digits {
        return Err("The user name cannot be numbers only");
    }
    if str_eq(username, TEMPORARY_USER) {
        return Err("The user name \"fluffsetup\" is reserved for system setup");
    }
    Ok(())
}

/// What is wrong with `d` as a display name, or `None` where it is
/// acceptable. A name that is blank once trimmed is acceptable: it stands
/// for the default name.
pub open spec fn display_name_problem(d: Seq<char>) -> Option<Seq<char>> {
    if trim(d).len() == 0 {
        None
    } else if d.len() > 128 {
        Some("The name must be 128 characters or less"@)
    } else if d.contains(':') {
        Some("The name cannot contain a colon (:)"@)
    } else if exists|i: int| 0 <= i < d.len() && spec_is_control(#[trigger] d[i]) {
        Some("The name cannot contain control characters"@)
    } else {
        None
    }
}

/// Checks a display name: at most 128 characters, no colon and no control
/// character; a blank name is accepted.
#[verifier::loop_isolation(false)]
pub fn validate_display_name(display_name: &str) -> (r: Result<(), &'static str>)
    ensures
        match r {
            Ok(()) => display_name_problem(display_name@) is None,
            Err(e) => display_name_problem(display_name@) == Some(e@),
        },
{
    let chars = chars_of(display_name);
    let (a, b) = trim_bounds(&chars);
    if a == b {
        return Ok(());
    }
    if chars.len() > 128 {
        return Err("The name must be 128 characters or less");
    }
    let mut i: usize = 0;
    while i < chars.len()
        invariant
            i <= chars@.len(),
            forall|j: int| 0 <= j < i ==> chars@[j] != ':',
        decreases chars.len() - i,
    {
        if chars[i] == ':' {
            assert(display_name@[i as int] == ':');
            return Err("The name cannot contain a colon (:)");
        }
        i = i + 1;
    }
    let mut i: usize = 0;
    while i < chars.len()
        invariant
            i <= chars@.len(),
            forall|j: int| 0 <= j < i ==> !spec_is_control(#[trigger] chars@[j]),
        decreases chars.len() - i,
    {
        if is_control(chars[i]) {
            return Err("The name cannot contain control characters");
        }
        i = i + 1;
    }
    Ok(())
}

/// The display name that stands for what was entered: the entered name, or
/// the default name where it is blank once trimmed.
pub open spec fn effective_display_name_of(d: Seq<char>) -> Seq<char> {
    if trim(d).len() == 0 {
        "User"@
    } else {
        d
    }
}

/// The entered display name, or `User` where it is blank once trimmed.
pub fn effective_display_name(display_name: &str) -> (r: &str)
    ensures
        r@ == effective_display_name_of(display_name@),
{
    let chars = chars_of(display_name);
    let (a, b) = trim_bounds(&chars);
    if a == b {
        default_display_name()
    } else {
        display_name
    }
}

/// Whether `line`, an account database entry, is the account that setup
/// creates for `username`: its fields are separated by `:`, the first is
/// the name, the fifth the display name, the sixth `/home/<username>` and
/// the seventh `/bin/zsh`.
pub open spec fn is_setup_identity(line: Seq<char>, username: Seq<char>, display_name: Seq<char>) -> bool {
    let fields = split(line, ':');
    &&& fields.len() >= 7
    &&& fields[0] == username
    &&& fields[4] == display_name
    &&& fields[5] == "/home/"@ + username
    &&& fields[6] == "/bin/zsh"@
}

/// Whether some line of the account database `passwd` is the account that
/// setup creates for `username` with `display_name`.
pub open spec fn passwd_has_setup_identity(
    passwd: Seq<char>,
    username: Seq<char>,
    display_name: Seq<char>,
) -> bool {
    exists|i: int|
        0 <= i < lines(passwd).len() && is_setup_identity(
            #[trigger] lines(passwd)[i],
            username,
            display_name,
        )
}

/// Whether the account database `passwd` holds the account that setup
/// creates for `username` with `display_name` (its name, display name, home
/// and shell all as setup makes them).
pub fn account_matches_setup_identity_in(passwd: &str, username: &str, display_name: &str) -> (r:
    bool)
    ensures
        r == passwd_has_setup_identity(passwd@, username@, display_name@),
{
    let mut expected_home = string_from("/home/");
    expected_home.append(username);
    let all = lines_of(&chars_of(passwd));
    let ghost ls = lines(passwd@);
    let mut i: usize = 0;
    while i < all.len()
        invariant
            i <= all@.len(),
            views(all@) == ls,
            ls == lines(passwd@),
            expected_home@ == "/home/"@ + username@,
            forall|j: int| 0 <= j < i ==> !is_setup_identity(#[trigger] ls[j], username@, display_name@),
        decreases all.len() - i,
    {
        assert(ls[i as int] == all@[i as int]@);
        let fields = split_chars(&chars_of(all[i].as_str()), ':');
        assert(views(fields@) == split(ls[i as int], ':'));
        if fields.len() >= 7 {
            assert(fields@[0]@ == views(fields@)[0]);
            assert(fields@[4]@ == views(fields@)[4]);
            assert(fields@[5]@ == views(fields@)[5]);
            assert(fields@[6]@ == views(fields@)[6]);
            if str_eq(fields[0].as_str(), username) && str_eq(fields[4].as_str(), display_name)
                && str_eq(fields[5].as_str(), expected_home.as_str()) && str_eq(
                fields[6].as_str(),
                "/bin/zsh",
            ) {
                return true;
            }
        }
        i = i + 1;
    }
    false
}

/// Which display names are accepted: exactly those that are blank once
/// trimmed, and those of at most 128 characters with no colon and no
/// control character (U+0000 to U+001F, U+007F to U+009F). Any other
/// character, a dot, a quote, a letter of any script, is allowed.
pub proof fn lemma_display_name_acceptance(d: Seq<char>)
    ensures
        display_name_problem(d) is None <==> (trim(d).len() == 0 || (d.len() <= 128 && forall|
            i: int,
        |
            0 <= i < d.len() ==> #[trigger] d[i] != ':' && !(d[i] <= '\u{1f}' || ('\u{7f}'
                <= d[i] && d[i] <= '\u{9f}')))),
{
    if trim(d).len() != 0 && d.len() <= 128 {
        if d.contains(':') {
            let k = choose|k: int| 0 <= k < d.len() && d[k] == ':';
            assert(d[k] == ':');
        }
        if exists|i: int| 0 <= i < d.len() && spec_is_control(#[trigger] d[i]) {
            let k = choose|k: int| 0 <= k < d.len() && spec_is_control(#[trigger] d[k]);
            assert(spec_is_control(d[k]));
        }
        if forall|i: int|
            0 <= i < d.len() ==> #[trigger] d[i] != ':' && !(d[i] <= '\u{1f}' || ('\u{7f}'
                <= d[i] && d[i] <= '\u{9f}')) {
            assert(!d.contains(':'));
            assert(!exists|i: int| 0 <= i < d.len() && spec_is_control(#[trigger] d[i]));
        }
    }
}

} // verus!
