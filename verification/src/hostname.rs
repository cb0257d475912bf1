//! The system name rules, and the name offered when none was entered.

use vstd::prelude::*;
use vstd::string::*;
use crate::number::{digit_char};
use crate::text::{
    chars_of, contains_whitespace, has_whitespace, is_ascii_alphanumeric, spec_is_ascii_alphanumeric,
    string_from, string_from_chars, utf8_len, utf8_len_exceeds, push_char, trim, trim_bounds,
    spec_is_whitespace, utf8_width,
};

verus! {

/// Letters and digits of ASCII, `-` and `.`.
pub open spec fn is_hostname_char(c: char) -> bool {
    spec_is_ascii_alphanumeric(c) || c == '-' || c == '.'
}

/// The characters of `s` that a system name may not hold, each once, in the
/// order of their first appearance.
pub open spec fn disallowed_hostname_chars(s: Seq<char>) -> Seq<char>
    decreases s.len(),
{
    if s.len() == 0 {
        seq![]
    } else {
        let earlier = disallowed_hostname_chars(s.drop_last());
        if !is_hostname_char(s.last()) && !earlier.contains(s.last()) {
            earlier.push(s.last())
        } else {
            earlier
        }
    }
}

/// The message that names the characters `bad`.
pub open spec fn disallowed_chars_message(bad: Seq<char>) -> Seq<char> {
    if bad.len() == 1 {
        "The character '"@ + bad
            + "' is not allowed. Use English letters, numbers, dashes (-), and dots (.) only."@
    } else {
        "The characters '"@ + bad
            + "' are not allowed. Use English letters, numbers, dashes (-), and dots (.) only."@
    }
}

/// What is wrong with `hostname` as a system name, the first rule it
/// breaks, or `None` where it is acceptable.
pub open spec fn hostname_problem(s: Seq<char>) -> Option<Seq<char>> {
    if s.len() == 0 {
        Some("The system name cannot be blank"@)
    } else if utf8_len(s) > 255 {
        Some("The system name is too long. Use no more than 255 characters."@)
    } else if has_whitespace(s) {
        Some("Spaces and other whitespace are not allowed in the system name."@)
    } else if disallowed_hostname_chars(s).len() > 0 {
        Some(disallowed_chars_message(disallowed_hostname_chars(s)))
    } else if s[0] == '-' {
        Some("The system name cannot start with a dash (-)."@)
    } else if s[0] == '.' {
        Some("The system name cannot start with a dot (.)."@)
    } else if s.last() == '-' {
        Some("The system name cannot end with a dash (-)."@)
    } else if s.last() == '.' {
        Some("The system name cannot end with a dot (.)."@)
    } else {
        None
    }
}

/// Every character of `s` that a system name may not hold is among
/// `disallowed_hostname_chars(s)`.
proof fn lemma_disallowed_chars_complete(s: Seq<char>, i: int)
    requires
        0 <= i < s.len(),
        !is_hostname_char(s[i]),
    ensures
        disallowed_hostname_chars(s).contains(s[i]),
    decreases s.len(),
{
    let earlier = disallowed_hostname_chars(s.drop_last());
    if i < s.len() - 1 {
        lemma_disallowed_chars_complete(s.drop_last(), i);
        assert(s.drop_last()[i] == s[i]);
        let k = choose|k: int| 0 <= k < earlier.len() && earlier[k] == s[i];
        if !is_hostname_char(s.last()) && !earlier.contains(s.last()) {
            assert(earlier.push(s.last())[k] == s[i]);
        }
    } else {
        if !earlier.contains(s.last()) {
            assert(earlier.push(s.last())[earlier.len() as int] == s[i]);
        }
    }
}

/// An accepted system name consists of ASCII letters, ASCII digits, `-`
/// and `.` only; a name that holds any other character is refused, and
/// where it passes the rules before the character rule, the message names
/// that character.
pub proof fn lemma_accepted_hostname_chars(s: Seq<char>)
    ensures
        hostname_problem(s) is None ==> forall|i: int|
            0 <= i < s.len() ==> {
                let c = #[trigger] s[i];
                ||| ('a' <= c && c <= 'z')
                ||| ('A' <= c && c <= 'Z')
                ||| ('0' <= c && c <= '9')
                ||| c == '-'
                ||| c == '.'
            },
        forall|i: int|
            0 <= i < s.len() && !({
                let c = #[trigger] s[i];
                ||| ('a' <= c && c <= 'z')
                ||| ('A' <= c && c <= 'Z')
                ||| ('0' <= c && c <= '9')
                ||| c == '-'
                ||| c == '.'
            }) ==> {
                &&& hostname_problem(s) is Some
                &&& (utf8_len(s) <= 255 && !has_whitespace(s)) ==> hostname_problem(s)
                    == Some(disallowed_chars_message(disallowed_hostname_chars(s)))
                    && disallowed_hostname_chars(s).contains(s[i])
            },
{
    assert forall|i: int|
        0 <= i < s.len() && !is_hostname_char(#[trigger] s[i]) implies disallowed_hostname_chars(
        s,
    ).contains(s[i]) && disallowed_hostname_chars(s).len() > 0 by {
        lemma_disallowed_chars_complete(s, i);
    }
}

fn is_hostname_char_exec(c: char) -> (r: bool)
    ensures
        r == is_hostname_char(c),
{
    is_ascii_alphanumeric(c) || c == '-' || c == '.'
}

fn vec_contains(v: &Vec<char>, c: char) -> (r: bool)
    ensures
        r == v@.contains(c),
{
    let mut i: usize = 0;
    while i < v.len()
        invariant
            i <= v@.len(),
            forall|j: int| 0 <= j < i ==> v@[j] != c,
        decreases v.len() - i,
    {
        if v[i] == c {
            return true;
        }
        i = i + 1;
    }
    false
}

fn disallowed_chars(chars: &Vec<char>) -> (bad: Vec<char>)
    ensures
        bad@ == disallowed_hostname_chars(chars@),
{
    let mut bad: Vec<char> = Vec::new();
    let mut i: usize = 0;
    assert(chars@.take(0) =~= Seq::<char>::empty());
    while i < chars.len()
        invariant
            i <= chars@.len(),
            bad@ == disallowed_hostname_chars(chars@.take(i as int)),
        decreases chars.len() - i,
    {
        let c = chars[i];
        assert(chars@.take(i + 1).drop_last() =~= chars@.take(i as int));
        if !is_hostname_char_exec(c) && !vec_contains(&bad, c) {
            bad.push(c);
        }
        i = i + 1;
    }
    assert(chars@.take(chars@.len() as int) =~= chars@);
    bad
}

/// Checks a system name against the rules, in order: not blank, at most 255
/// bytes, no white space, only ASCII letters, digits, `-` and `.`, and
/// neither starting nor ending with `-` or `.`.
pub fn validate_hostname(hostname: &str) -> (r: Result<(), String>)
    ensures
        match r {
            Ok(()) => hostname_problem(hostname@) is None,
            Err(e) => hostname_problem(hostname@) == Some(e@),
        },
{
    let chars = chars_of(hostname);
    let n = chars.len();
    if n == 0 {
        return Err(string_from("The system name cannot be blank"));
    }
    if utf8_len_exceeds(&chars, 255) {
        return Err(string_from("The system name is too long. Use no more than 255 characters."));
    }
    if contains_whitespace(&chars) {
        return Err(
            string_from("Spaces and other whitespace are not allowed in the system name."),
        );
    }
    let bad = disallowed_chars(&chars);
    if bad.len() > 0 {
        let listed = string_from_chars(&bad, 0, bad.len());
        assert(bad@.subrange(0, bad@.len() as int) =~= bad@);
        let mut message = if bad.len() == 1 {
            string_from("The character '")
        } else {
            string_from("The characters '")
        };
        message.append(listed.as_str());
        if bad.len() == 1 {
            message.append(
                "' is not allowed. Use English letters, numbers, dashes (-), and dots (.) only.",
            );
        } else {
            message.append(
                "' are not allowed. Use English letters, numbers, dashes (-), and dots (.) only.",
            );
        }
        return Err(message);
    }
    if chars[0] == '-' {
        return Err(string_from("The system name cannot start with a dash (-)."));
    }
    if chars[0] == '.' {
        return Err(string_from("The system name cannot start with a dot (.)."));
    }
    if chars[n - 1] == '-' {
        return Err(string_from("The system name cannot end with a dash (-)."));
    }
    if chars[n - 1] == '.' {
        return Err(string_from("The system name cannot end with a dot (.)."));
    }
    Ok(())
}

/// The letter `A` + `n`.
pub open spec fn letter(n: nat) -> char {
    ((n + 65) as u32) as char
}

/// The offered name for six random bytes: `FL-`, two letters and four
/// digits, each the byte taken modulo 26 or 10.
pub open spec fn random_hostname(b: Seq<u8>) -> Seq<char> {
    seq![
        'F',
        'L',
        '-',
        letter((b[0] % 26) as nat),
        letter((b[1] % 26) as nat),
        digit_char((b[2] % 10) as nat),
        digit_char((b[3] % 10) as nat),
        digit_char((b[4] % 10) as nat),
        digit_char((b[5] % 10) as nat),
    ]
}

/// The offered name: from six random bytes, or `flufflinux` where none
/// could be read.
pub open spec fn offered_hostname(random: Option<[u8; 6]>) -> Seq<char> {
    match random {
        Some(b) => random_hostname(b@),
        None => "flufflinux"@,
    }
}

fn letter_of(b: u8) -> (c: char)
    ensures
        c == letter((b % 26) as nat),
{
    let v: u8 = b % 26 + 65;
    v as char
}

fn digit_of(b: u8) -> (c: char)
    ensures
        c == digit_char((b % 10) as nat),
{
    let d = b % 10;
    if d == 0 {
        '0'
    } else if d == 1 {
        '1'
    } else if d == 2 {
        '2'
    } else if d == 3 {
        '3'
    } else if d == 4 {
        '4'
    } else if d == 5 {
        '5'
    } else if d == 6 {
        '6'
    } else if d == 7 {
        '7'
    } else if d == 8 {
        '8'
    } else {
        '9'
    }
}

proof fn lemma_no_disallowed(s: Seq<char>)
    requires
        forall|i: int| 0 <= i < s.len() ==> is_hostname_char(#[trigger] s[i]),
    ensures
        disallowed_hostname_chars(s) == Seq::<char>::empty(),
    decreases s.len(),
{
    if s.len() > 0 {
        assert(is_hostname_char(s[s.len() - 1]));
        lemma_no_disallowed(s.drop_last());
    }
}

proof fn lemma_utf8_len_bound(s: Seq<char>)
    ensures
        utf8_len(s) <= 4 * s.len(),
    decreases s.len(),
{
    if s.len() > 0 {
        lemma_utf8_len_bound(s.drop_last());
    }
}

/// A short name of ASCII letters, digits, `-` and `.` that starts and ends
/// with a letter or digit is a valid system name.
proof fn lemma_plain_hostname_valid(s: Seq<char>)
    requires
        0 < s.len() <= 63,
        forall|i: int| 0 <= i < s.len() ==> is_hostname_char(#[trigger] s[i]),
        spec_is_ascii_alphanumeric(s[0]),
        spec_is_ascii_alphanumeric(s.last()),
    ensures
        hostname_problem(s) is None,
{
    lemma_no_disallowed(s);
    lemma_utf8_len_bound(s);
    assert(!has_whitespace(s)) by {
        if has_whitespace(s) {
            let i = choose|i: int| 0 <= i < s.len() && #[trigger] spec_is_whitespace(s[i]);
            assert(is_hostname_char(s[i]));
        }
    }
}

/// Every offered name is a valid system name.
pub proof fn lemma_offered_hostname_valid(random: Option<[u8; 6]>)
    ensures
        hostname_problem(offered_hostname(random)) is None,
{
    reveal_strlit("flufflinux");
    let s = offered_hostname(random);
    assert forall|i: int| 0 <= i < s.len() implies is_hostname_char(#[trigger] s[i]) by {
    }
    lemma_plain_hostname_valid(s);
}

/// The system name offered when none was entered: `FL-` followed by two
/// random letters and four random digits, or `flufflinux` where no random
/// bytes could be read. It is always a valid system name.
pub fn generate_hostname(random: Option<[u8; 6]>) -> (h: String)
    ensures
        h@ == offered_hostname(random),
        hostname_problem(h@) is None,
{
    proof {
        lemma_offered_hostname_valid(random);
    }
    match random {
        None => string_from("flufflinux"),
        Some(bytes) => {
            let mut h = string_from("FL-");
            push_char(&mut h, letter_of(bytes[0]));
            push_char(&mut h, letter_of(bytes[1]));
            push_char(&mut h, digit_of(bytes[2]));
            push_char(&mut h, digit_of(bytes[3]));
            push_char(&mut h, digit_of(bytes[4]));
            push_char(&mut h, digit_of(bytes[5]));
            proof {
                reveal_strlit("FL-");
            }
            assert(h@ =~= random_hostname(bytes@));
            h
        },
    }
}

/// The system name used when none was entered: the current one, trimmed,
/// where it is valid, else an offered one.
pub open spec fn current_or_offered_hostname(
    current: Option<Seq<char>>,
    random: Option<[u8; 6]>,
) -> Seq<char> {
    match current {
        Some(text) => if hostname_problem(trim(text)) is None {
            trim(text)
        } else {
            offered_hostname(random)
        },
        None => offered_hostname(random),
    }
}

/// The system name used when none was entered, from the contents of the
/// current name's file (where it could be read) and six random bytes (where
/// they could be read). It is always a valid system name.
pub fn current_or_generated_hostname(current: Option<&str>, random: Option<[u8; 6]>) -> (h:
    String)
    ensures
        h@ == current_or_offered_hostname(
            match current {
                Some(t) => Some(t@),
                None => None,
            },
            random,
        ),
        hostname_problem(h@) is None,
{
    match current {
        Some(text) => {
            let chars = chars_of(text);
            let (a, b) = trim_bounds(&chars);
            let trimmed = string_from_chars(&chars, a, b);
            match validate_hostname(trimmed.as_str()) {
                Ok(()) => trimmed,
                Err(_) => generate_hostname(random),
            }
        },
        None => generate_hostname(random),
    }
}

} // verus!
