//! What the interface hands the privileged setup step, and what comes back:
//! the setup details as four lines on standard input, the checks the step
//! makes before changing anything, and the message shown when it fails.

use vstd::prelude::*;
use vstd::string::*;
use crate::account::{
    display_name_problem, effective_display_name, effective_display_name_of, username_problem,
    validate_display_name, validate_username,
};
use crate::hostname::{hostname_problem, validate_hostname};
use crate::text::{
    chars_of, lemma_find_char, lemma_find_char_bound, find_char, push_char, spec_is_ascii_alphabetic,
    is_ascii_alphabetic, string_from, string_from_chars, trim, trim_bounds, trim_end_char,
    trim_end_char_str, trim_end_newlines, trim_end_newlines_str,
};

verus! {

/// What follows an escape sequence's introducer in `s`: everything after
/// its first ASCII letter, or nothing where it has none.
pub open spec fn after_escape(s: Seq<char>) -> Seq<char>
    decreases s.len(),
{
    if s.len() == 0 {
        s
    } else if spec_is_ascii_alphabetic(s[0]) {
        s.drop_first()
    } else {
        after_escape(s.drop_first())
    }
}

pub proof fn lemma_after_escape_shorter(s: Seq<char>)
    ensures
        after_escape(s).len() <= s.len(),
    decreases s.len(),
{
    if s.len() > 0 && !spec_is_ascii_alphabetic(s[0]) {
        lemma_after_escape_shorter(s.drop_first());
    }
}

/// `s` without terminal escape sequences: an escape character and every
/// character up to and including the next ASCII letter are dropped.
pub open spec fn without_escapes(s: Seq<char>) -> Seq<char>
    decreases s.len(),
{
    if s.len() == 0 {
        seq![]
    } else if s[0] == '\u{1b}' {
        proof {
            lemma_after_escape_shorter(s.drop_first());
        }
        without_escapes(after_escape(s.drop_first()))
    } else {
        seq![s[0]] + without_escapes(s.drop_first())
    }
}

/// Removes terminal escape sequences (colors and the like) from `value`.
pub fn strip_ansi(value: &str) -> (r: String)
    ensures
        r@ == without_escapes(value@),
{
    let chars = chars_of(value);
    let n = chars.len();
    let mut result = String::new();
    let mut escaping = false;
    let mut i: usize = 0;
    assert(chars@.skip(0) =~= chars@);
    while i < n
        invariant
            i <= n == chars@.len(),
            !escaping ==> result@ + without_escapes(chars@.skip(i as int)) == without_escapes(
                chars@,
            ),
            escaping ==> result@ + without_escapes(after_escape(chars@.skip(i as int)))
                == without_escapes(chars@),
        decreases n - i,
    {
        let c = chars[i];
        let ghost rest = chars@.skip(i as int);
        assert(rest[0] == c);
        assert(rest.drop_first() =~= chars@.skip(i + 1));
        if escaping {
            if is_ascii_alphabetic(c) {
                escaping = false;
            }
        } else if c == '\u{1b}' {
            escaping = true;
        } else {
            let ghost before = result@;
            push_char(&mut result, c);
            assert(result@ + without_escapes(chars@.skip(i + 1)) =~= before + without_escapes(
                rest,
            ));
        }
        i = i + 1;
    }
    assert(chars@.skip(n as int) =~= Seq::<char>::empty());
    assert(result@ + without_escapes(Seq::<char>::empty()) =~= result@);
    result
}

/// The message shown when the privileged step fails with `stderr` on its
/// error output: that output without escape sequences and trimmed, or a
/// general message where nothing is left.
pub open spec fn failure_message(stderr: Seq<char>) -> Seq<char> {
    let error = trim(without_escapes(stderr));
    if error.len() == 0 {
        "Setup could not be completed. Review your details and try again."@
    } else {
        error
    }
}

/// The message shown when the privileged step fails.
pub fn setup_failure_message(stderr: &str) -> (m: String)
    ensures
        m@ == failure_message(stderr@),
{
    let stripped = chars_of(strip_ansi(stderr).as_str());
    let (a, b) = trim_bounds(&stripped);
    if a == b {
        string_from("Setup could not be completed. Review your details and try again.")
    } else {
        string_from_chars(&stripped, a, b)
    }
}

/// The setup details: system name, display name, login name and password.
pub struct SetupDetails {
    pub hostname: String,
    pub display_name: String,
    pub username: String,
    pub password: String,
}

/// The setup details as values.
pub struct DetailsView {
    pub hostname: Seq<char>,
    pub display_name: Seq<char>,
    pub username: Seq<char>,
    pub password: Seq<char>,
}

impl View for SetupDetails {
    type V = DetailsView;

    open spec fn view(&self) -> DetailsView {
        DetailsView {
            hostname: self.hostname@,
            display_name: self.display_name@,
            username: self.username@,
            password: self.password@,
        }
    }
}

/// The details as the privileged step reads them: one line each for the
/// system name, display name and login name, then the password. The password
/// is sent on standard input so that it never shows in the process list.
pub open spec fn details_text(d: DetailsView) -> Seq<char> {
    d.hostname + seq!['\n'] + d.display_name + seq!['\n'] + d.username + seq!['\n'] + d.password
}

/// The details as text for the privileged step.
pub fn setup_details_text(hostname: &str, display_name: &str, username: &str, password: &str) -> (s:
    String)
    ensures
        s@ == details_text(
            DetailsView {
                hostname: hostname@,
                display_name: display_name@,
                username: username@,
                password: password@,
            },
        ),
{
    let mut s = string_from(hostname);
    push_char(&mut s, '\n');
    s.append(display_name);
    push_char(&mut s, '\n');
    s.append(username);
    push_char(&mut s, '\n');
    s.append(password);
    s
}

/// `str::splitn(n, sep)`: at most `n` pieces, the last one holding the rest.
pub open spec fn splitn(s: Seq<char>, n: nat, sep: char) -> Seq<Seq<char>>
    decreases n,
{
    let i = find_char(s, sep);
    if n <= 1 || i < 0 {
        seq![s]
    } else {
        seq![s.take(i)] + splitn(s.skip(i + 1), (n - 1) as nat, sep)
    }
}

/// The piece `k` of `pieces`, or the empty text where there is none.
pub open spec fn piece_or_empty(pieces: Seq<Seq<char>>, k: int) -> Seq<char> {
    if k < pieces.len() {
        pieces[k]
    } else {
        seq![]
    }
}

/// The details that the privileged step reads from `input`: the first three
/// lines without trailing carriage returns, and the rest as the password
/// without trailing carriage returns and line feeds. Missing lines read as
/// empty.
pub open spec fn parsed_details(input: Seq<char>) -> DetailsView {
    let pieces = splitn(input, 4, '\n');
    DetailsView {
        hostname: trim_end_char(piece_or_empty(pieces, 0), '\r'),
        display_name: trim_end_char(piece_or_empty(pieces, 1), '\r'),
        username: trim_end_char(piece_or_empty(pieces, 2), '\r'),
        password: trim_end_newlines(piece_or_empty(pieces, 3)),
    }
}

/// Splits off the text before the first `sep`; `None` for the rest where
/// there is no `sep`.
fn split_once(s: &Vec<char>, sep: char) -> (r: (Vec<char>, Option<Vec<char>>))
    ensures
        r.0@ == (if find_char(s@, sep) < 0 {
            s@
        } else {
            s@.take(find_char(s@, sep))
        }),
        match r.1 {
            Some(rest) => find_char(s@, sep) >= 0 && rest@ == s@.skip(find_char(s@, sep) + 1),
            None => find_char(s@, sep) < 0,
        },
{
    let mut i: usize = 0;
    while i < s.len() && s[i] != sep
        invariant
            i <= s@.len(),
            forall|j: int| 0 <= j < i ==> s@[j] != sep,
        decreases s.len() - i,
    {
        i = i + 1;
    }
    proof {
        lemma_find_char(s@, sep, i as int);
    }
    let mut head: Vec<char> = Vec::new();
    let mut k: usize = 0;
    while k < i
        invariant
            k <= i <= s@.len(),
            head@ == s@.take(k as int),
        decreases i - k,
    {
        head.push(s[k]);
        k = k + 1;
        assert(head@ =~= s@.take(k as int));
    }
    if i == s.len() {
        assert(s@.take(i as int) =~= s@);
        return (head, None);
    }
    let mut rest: Vec<char> = Vec::new();
    let mut k: usize = i + 1;
    while k < s.len()
        invariant
            i < k <= s@.len(),
            rest@ == s@.subrange(i + 1, k as int),
        decreases s.len() - k,
    {
        rest.push(s[k]);
        k = k + 1;
        assert(rest@ =~= s@.subrange(i + 1, k as int));
    }
    assert(rest@ =~= s@.skip(i + 1));
    (head, Some(rest))
}

fn chars_to_string(v: &Vec<char>) -> (s: String)
    ensures
        s@ == v@,
{
    let s = string_from_chars(v, 0, v.len());
    assert(v@.subrange(0, v@.len() as int) =~= v@);
    s
}

/// Reads the setup details that the interface sent.
pub fn parse_setup_details(input: &str) -> (d: SetupDetails)
    ensures
        d@ == parsed_details(input@),
{
    let all = chars_of(input);
    let ghost p4 = splitn(all@, 4, '\n');
    let (first, rest1) = split_once(&all, '\n');
    let mut pieces: Vec<String> = Vec::new();
    pieces.push(chars_to_string(&first));
    match rest1 {
        None => {},
        Some(r1) => {
            let ghost p3 = splitn(r1@, 3, '\n');
            let (second, rest2) = split_once(&r1, '\n');
            pieces.push(chars_to_string(&second));
            match rest2 {
                None => {},
                Some(r2) => {
                    let (third, rest3) = split_once(&r2, '\n');
                    pieces.push(chars_to_string(&third));
                    match rest3 {
                        None => {},
                        Some(r3) => {
                            pieces.push(chars_to_string(&r3));
                        },
                    }
                },
            }
        },
    }
    let ghost pv = pieces@.map_values(|s: String| s@);
    assert(pv =~= p4) by {
        reveal_with_fuel(splitn, 5);
    }
    let empty = String::new();
    let h = if pieces.len() > 0 { pieces[0].as_str() } else { empty.as_str() };
    let dn = if pieces.len() > 1 { pieces[1].as_str() } else { empty.as_str() };
    let u = if pieces.len() > 2 { pieces[2].as_str() } else { empty.as_str() };
    let p = if pieces.len() > 3 { pieces[3].as_str() } else { empty.as_str() };
    assert(h@ == piece_or_empty(p4, 0));
    assert(dn@ == piece_or_empty(p4, 1));
    assert(u@ == piece_or_empty(p4, 2));
    assert(p@ == piece_or_empty(p4, 3));
    SetupDetails {
        hostname: trim_end_char_str(h, '\r'),
        display_name: trim_end_char_str(dn, '\r'),
        username: trim_end_char_str(u, '\r'),
        password: trim_end_newlines_str(p),
    }
}

/// The first problem with the details that the privileged step refuses,
/// in the order it checks them: the system name, the display name (as the
/// default name where blank), a blank password, the login name.
pub open spec fn details_problem(d: DetailsView) -> Option<Seq<char>> {
    if hostname_problem(d.hostname) is Some {
        hostname_problem(d.hostname)
    } else if display_name_problem(effective_display_name_of(d.display_name)) is Some {
        display_name_problem(effective_display_name_of(d.display_name))
    } else if d.password.len() == 0 {
        Some("The password cannot be blank."@)
    } else {
        username_problem(d.username)
    }
}

/// Checks the details before anything is changed; the error is the message
/// the privileged step stops with.
pub fn check_setup_details(details: &SetupDetails) -> (r: Result<(), String>)
    ensures
        match r {
            Ok(()) => details_problem(details@) is None,
            Err(e) => details_problem(details@) == Some(e@),
        },
{
    match validate_hostname(details.hostname.as_str()) {
        Err(e) => {
            return Err(e);
        },
        Ok(()) => {},
    }
    let display_name = effective_display_name(details.display_name.as_str());
    match validate_display_name(display_name) {
        Err(e) => {
            return Err(string_from(e));
        },
        Ok(()) => {},
    }
    if details.password.as_str().is_empty() {
        return Err(string_from("The password cannot be blank."));
    }
    match validate_username(details.username.as_str()) {
        Err(e) => Err(string_from(e)),
        Ok(()) => Ok(()),
    }
}

/// A field that one line of the details can carry unchanged: no line feed,
/// and no carriage return at its end.
pub open spec fn fits_one_line(s: Seq<char>) -> bool {
    &&& !s.contains('\n')
    &&& !(s.len() > 0 && s.last() == '\r')
}

proof fn lemma_find_after_field(x: Seq<char>, rest: Seq<char>)
    requires
        !x.contains('\n'),
    ensures
        find_char(x + seq!['\n'] + rest, '\n') == x.len(),
        (x + seq!['\n'] + rest).take(x.len() as int) == x,
        (x + seq!['\n'] + rest).skip(x.len() as int + 1) == rest,
{
    let s = x + seq!['\n'] + rest;
    assert forall|j: int| 0 <= j < x.len() implies s[j] != '\n' by {
        assert(s[j] == x[j]);
        if x[j] == '\n' {
            assert(x.contains('\n'));
        }
    }
    lemma_find_char(s, '\n', x.len() as int);
    assert(s.take(x.len() as int) =~= x);
    assert(s.skip(x.len() as int + 1) =~= rest);
}

proof fn lemma_trim_end_char_id(s: Seq<char>, c: char)
    requires
        !(s.len() > 0 && s.last() == c),
    ensures
        trim_end_char(s, c) == s,
{
}

/// Reading back the details text gives the same details, for a system name,
/// display name and login name that each fit on one line, and a password
/// that does not end in a carriage return or line feed (it may hold line
/// feeds elsewhere).
pub proof fn lemma_details_round_trip(d: DetailsView)
    requires
        fits_one_line(d.hostname),
        fits_one_line(d.display_name),
        fits_one_line(d.username),
        !(d.password.len() > 0 && (d.password.last() == '\r' || d.password.last() == '\n')),
    ensures
        parsed_details(details_text(d)) == d,
{
    let r3 = d.password;
    let r2 = d.username + seq!['\n'] + r3;
    let r1 = d.display_name + seq!['\n'] + r2;
    let all = d.hostname + seq!['\n'] + r1;
    assert(details_text(d) =~= all);
    lemma_find_after_field(d.hostname, r1);
    lemma_find_after_field(d.display_name, r2);
    lemma_find_after_field(d.username, r3);
    assert(splitn(r3, 1, '\n') == seq![r3]);
    assert(splitn(r2, 2, '\n') =~= seq![d.username, r3]);
    assert(splitn(r1, 3, '\n') =~= seq![d.display_name, d.username, r3]);
    assert(splitn(all, 4, '\n') =~= seq![d.hostname, d.display_name, d.username, r3]);
    lemma_trim_end_char_id(d.hostname, '\r');
    lemma_trim_end_char_id(d.display_name, '\r');
    lemma_trim_end_char_id(d.username, '\r');
    assert(trim_end_newlines(r3) == r3);
}

} // verus!
