//! The recovery record: what an interrupted first boot resumes from. It
//! holds the page, the system name, the display name and the reserved login
//! name, and never a password.

use vstd::prelude::*;
use vstd::string::*;
use crate::account::{default_display_name, effective_display_name_of};
use crate::number::{
    decimal, digit_char, digits_value, parse_i32, parse_i32_chars, push_signed_decimal,
    signed_decimal,
};
use crate::text::{
    chars_of, lemma_find_char, lines, lines_of, push_char, str_eq, string_from, strip_cr, trim,
    trim_bounds, trim_end, trim_start, views,
};

verus! {

/// The recovery record.
#[derive(Debug, Clone)]
pub struct SetupProgress {
    pub page: i32,
    pub hostname: String,
    pub display_name: String,
    pub username: String,
    pub account_created: bool,
}

/// The recovery record as values.
pub struct ProgressView {
    pub page: i32,
    pub hostname: Seq<char>,
    pub display_name: Seq<char>,
    pub username: Seq<char>,
    pub account_created: bool,
}

impl View for SetupProgress {
    type V = ProgressView;

    open spec fn view(&self) -> ProgressView {
        ProgressView {
            page: self.page,
            hostname: self.hostname@,
            display_name: self.display_name@,
            username: self.username@,
            account_created: self.account_created,
        }
    }
}

impl PartialEq for SetupProgress {
    fn eq(&self, other: &Self) -> (r: bool) {
        self.page == other.page && self.hostname == other.hostname && self.display_name
            == other.display_name && self.username == other.username && self.account_created
            == other.account_created
    }
}

impl vstd::std_specs::cmp::PartialEqSpecImpl for SetupProgress {
    open spec fn obeys_eq_spec() -> bool {
        true
    }

    open spec fn eq_spec(&self, other: &Self) -> bool {
        self@ == other@
    }
}

impl Eq for SetupProgress {

}

impl Default for SetupProgress {
    fn default() -> (p: Self)
        ensures
            p@ == empty_progress(),
    {
        SetupProgress {
            page: 0,
            hostname: String::new(),
            display_name: String::new(),
            username: String::new(),
            account_created: false,
        }
    }
}

/// The record of a first boot that has not started: the first page and
/// nothing entered.
pub open spec fn empty_progress() -> ProgressView {
    ProgressView {
        page: 0,
        hostname: seq![],
        display_name: seq![],
        username: seq![],
        account_created: false,
    }
}

/// The pages that setup can resume at.
pub open spec fn is_resumable_page(page: int) -> bool {
    page == 0 || page == 1 || page == 2 || page == 4
}

/// The recovery record as text: one line each for the page, the system
/// name, the display name, the login name and whether the account was
/// created (`true` or `false`).
pub open spec fn serialized(p: ProgressView) -> Seq<char> {
    signed_decimal(p.page as int) + seq!['\n'] + p.hostname + seq!['\n'] + p.display_name
        + seq!['\n'] + p.username + seq!['\n'] + (if p.account_created {
        "true"@
    } else {
        "false"@
    })
}

/// The line `i` of `ls`, or the empty text where there is none.
pub open spec fn line_or_empty(ls: Seq<Seq<char>>, i: int) -> Seq<char> {
    if i < ls.len() {
        ls[i]
    } else {
        seq![]
    }
}

/// The page that the first line of a record names: its number where that is
/// a resumable page, else the first page.
pub open spec fn page_of_line(line: Seq<char>) -> i32 {
    match parse_i32(line) {
        Some(v) => if is_resumable_page(v) {
            v as i32
        } else {
            0
        },
        None => 0,
    }
}

/// The record that the text `contents` holds. Missing lines read as empty,
/// the page as the first page unless it is resumable, and the account as
/// not created unless its line is exactly `true`.
pub open spec fn parsed(contents: Seq<char>) -> ProgressView {
    let ls = lines(contents);
    ProgressView {
        page: if ls.len() > 0 {
            page_of_line(ls[0])
        } else {
            0
        },
        hostname: line_or_empty(ls, 1),
        display_name: line_or_empty(ls, 2),
        username: line_or_empty(ls, 3),
        account_created: ls.len() > 4 && ls[4] == "true"@,
    }
}

/// `p` with the blank fields that the interface shows in gray filled in:
/// the system name with `default_hostname` where it is empty, the display
/// name with `User` where it is blank once trimmed.
pub open spec fn with_defaults(p: ProgressView, default_hostname: Seq<char>) -> ProgressView {
    ProgressView {
        page: p.page,
        hostname: if p.hostname.len() == 0 {
            default_hostname
        } else {
            p.hostname
        },
        display_name: effective_display_name_of(p.display_name),
        username: p.username,
        account_created: p.account_created,
    }
}

/// A copy of `s`.
pub fn copy_string(s: &String) -> (r: String)
    ensures
        r@ == s@,
{
    s.clone()
}

/// The recovery record as text.
pub fn serialize_setup_progress(progress: &SetupProgress) -> (s: String)
    ensures
        s@ == serialized(progress@),
{
    let mut s = String::new();
    push_signed_decimal(&mut s, progress.page);
    push_char(&mut s, '\n');
    s.append(progress.hostname.as_str());
    push_char(&mut s, '\n');
    s.append(progress.display_name.as_str());
    push_char(&mut s, '\n');
    s.append(progress.username.as_str());
    push_char(&mut s, '\n');
    if progress.account_created {
        s.append("true");
    } else {
        s.append("false");
    }
    assert(s@ =~= serialized(progress@));
    s
}

fn line_at(ls: &Vec<String>, i: usize) -> (r: String)
    ensures
        r@ == line_or_empty(views(ls@), i as int),
{
    if i < ls.len() {
        copy_string(&ls[i])
    } else {
        String::new()
    }
}

/// Reads a recovery record; every text reads as some record.
pub fn parse_setup_progress(contents: &str) -> (p: SetupProgress)
    ensures
        p@ == parsed(contents@),
        is_resumable_page(p.page as int),
{
    let ls = lines_of(&chars_of(contents));
    let ghost lv = views(ls@);
    let page: i32 = if ls.len() > 0 {
        assert(ls@[0]@ == lv[0]);
        match parse_i32_chars(&chars_of(ls[0].as_str())) {
            Some(v) => if v == 0 || v == 1 || v == 2 || v == 4 {
                v
            } else {
                0
            },
            None => 0,
        }
    } else {
        0
    };
    let account_created = if ls.len() > 4 {
        assert(ls@[4]@ == lv[4]);
        str_eq(ls[4].as_str(), "true")
    } else {
        false
    };
    SetupProgress {
        page,
        hostname: line_at(&ls, 1),
        display_name: line_at(&ls, 2),
        username: line_at(&ls, 3),
        account_created,
    }
}

/// `progress` with its blank fields filled in as the interface shows them.
pub fn setup_progress_with_defaults(progress: &SetupProgress, default_hostname: &str) -> (p:
    SetupProgress)
    ensures
        p@ == with_defaults(progress@, default_hostname@),
{
    let hostname = if progress.hostname.as_str().is_empty() {
        string_from(default_hostname)
    } else {
        copy_string(&progress.hostname)
    };
    let chars = chars_of(progress.display_name.as_str());
    let (a, b) = trim_bounds(&chars);
    let display_name = if a == b {
        string_from(default_display_name())
    } else {
        copy_string(&progress.display_name)
    };
    SetupProgress {
        page: progress.page,
        hostname,
        display_name,
        username: copy_string(&progress.username),
        account_created: progress.account_created,
    }
}

/// A field that a record line can hold and read back unchanged: no line
/// feed, and no carriage return at its end.
pub open spec fn is_line_safe(s: Seq<char>) -> bool {
    &&& !s.contains('\n')
    &&& !(s.len() > 0 && s.last() == '\r')
}

/// Reading the lines of `x`, a line feed and `rest` gives `x`, then the
/// lines of `rest`.
pub proof fn lemma_lines_cons(x: Seq<char>, rest: Seq<char>)
    requires
        is_line_safe(x),
    ensures
        lines(x + seq!['\n'] + rest) == seq![x] + lines(rest),
{
    let s = x + seq!['\n'] + rest;
    assert forall|j: int| 0 <= j < x.len() implies s[j] != '\n' by {
        assert(s[j] == x[j]);
        if x[j] == '\n' {
            assert(x.contains('\n'));
        }
    }
    lemma_find_char(s, '\n', x.len() as int);
    assert(s.take(x.len() as int) =~= x);
    assert(s.skip(x.len() as int + 1) =~= rest);
    assert(strip_cr(x) == x);
}

/// A text without line feeds that is not empty is one line.
pub proof fn lemma_lines_single(x: Seq<char>)
    requires
        x.len() > 0,
        !x.contains('\n'),
    ensures
        lines(x) == seq![x],
{
    assert forall|j: int| 0 <= j < x.len() implies x[j] != '\n' by {
        if x[j] == '\n' {
            assert(x.contains('\n'));
        }
    }
    lemma_find_char(x, '\n', x.len() as int);
}

/// The written page reads back as itself.
proof fn lemma_page_round_trip(page: i32)
    requires
        is_resumable_page(page as int),
    ensures
        is_line_safe(signed_decimal(page as int)),
        page_of_line(signed_decimal(page as int)) == page,
{
    let d = signed_decimal(page as int);
    assert(d == seq![digit_char(page as nat)]);
    assert(d.drop_last() =~= Seq::<char>::empty());
    assert(d.last() == digit_char(page as nat));
    assert(digits_value(d.drop_last()) == 0);
    assert(digits_value(d) == page as int);
    assert(d.contains('\n') ==> d[0] == '\n');
}

/// Reading back a written recovery record gives the same record, for every
/// record whose page is resumable and whose names are line-safe (no line
/// feed, no trailing carriage return).
pub proof fn lemma_progress_round_trip(p: ProgressView)
    requires
        is_resumable_page(p.page as int),
        is_line_safe(p.hostname),
        is_line_safe(p.display_name),
        is_line_safe(p.username),
    ensures
        parsed(serialized(p)) == p,
{
    reveal_strlit("true");
    reveal_strlit("false");
    let page = signed_decimal(p.page as int);
    let flag = if p.account_created {
        "true"@
    } else {
        "false"@
    };
    lemma_page_round_trip(p.page);
    assert(flag.len() > 0);
    assert(!flag.contains('\n')) by {
        if flag.contains('\n') {
            let j = choose|j: int| 0 <= j < flag.len() && flag[j] == '\n';
            assert(false);
        }
    }
    lemma_lines_single(flag);
    let r3 = p.username + seq!['\n'] + flag;
    let r2 = p.display_name + seq!['\n'] + r3;
    let r1 = p.hostname + seq!['\n'] + r2;
    let all = page + seq!['\n'] + r1;
    assert(serialized(p) =~= all);
    lemma_lines_cons(p.username, flag);
    assert(lines(r3) =~= seq![p.username, flag]);
    lemma_lines_cons(p.display_name, r3);
    assert(lines(r2) =~= seq![p.display_name, p.username, flag]);
    lemma_lines_cons(p.hostname, r2);
    assert(lines(r1) =~= seq![p.hostname, p.display_name, p.username, flag]);
    lemma_lines_cons(page, r1);
    let ls = lines(all);
    assert(ls =~= seq![page, p.hostname, p.display_name, p.username, flag]);
    assert(("false"@ == "true"@) == false);
    assert(parsed(serialized(p)) =~= p);
}

/// The recovery record never keeps a blank field that the interface shows
/// in gray: with a non-empty default system name, the system name is not
/// empty and the display name is not blank; every other field is kept.
pub proof fn lemma_defaults_fill_blanks(p: ProgressView, default_hostname: Seq<char>)
    requires
        default_hostname.len() > 0,
    ensures
        with_defaults(p, default_hostname).hostname.len() > 0,
        trim(with_defaults(p, default_hostname).display_name).len() > 0,
        with_defaults(p, default_hostname).page == p.page,
        with_defaults(p, default_hostname).username == p.username,
        with_defaults(p, default_hostname).account_created == p.account_created,
{
    reveal_strlit("User");
    let u = "User"@;
    assert(trim_start(u) == u);
    assert(trim_end(u) == u);
}

} // verus!
