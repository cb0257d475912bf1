//! The login manager configuration: setup starts through an automatic
//! login, and cleanup removes it while keeping every other setting.

use vstd::prelude::*;
use vstd::string::*;
use crate::text::{
    chars_of, eq_ignore_ascii_case, lines, lines_of, push_char, range_eq_ignore_ascii_case, trim,
    trim_bounds, views,
};

verus! {

/// A section header line, once trimmed: `[` ... `]`.
pub open spec fn is_section_header(t: Seq<char>) -> bool {
    t.len() > 0 && t[0] == '[' && t.last() == ']'
}

/// The lines `ls`, each followed by a line feed, without those that stand
/// in an `[Autologin]` section (the header matched without regard to ASCII
/// case); `skipping` tells whether the lines before were in one.
pub open spec fn kept_lines(ls: Seq<Seq<char>>, skipping: bool) -> Seq<char>
    decreases ls.len(),
{
    if ls.len() == 0 {
        seq![]
    } else {
        let t = trim(ls[0]);
        let skip = if is_section_header(t) {
            eq_ignore_ascii_case(t, "[Autologin]"@)
        } else {
            skipping
        };
        (if skip {
            seq![]
        } else {
            ls[0].push('\n')
        }) + kept_lines(ls.drop_first(), skip)
    }
}

/// `config` without its `[Autologin]` sections; every other line is kept,
/// each ending in a line feed.
pub open spec fn without_autologin(config: Seq<char>) -> Seq<char> {
    kept_lines(lines(config), false)
}

/// Removes the `[Autologin]` sections from a login manager configuration.
pub fn without_autologin_section(config: &str) -> (cleaned: String)
    ensures
        cleaned@ == without_autologin(config@),
{
    let header = chars_of("[Autologin]");
    let ls = lines_of(&chars_of(config));
    let ghost lv = views(ls@);
    let mut skip = false;
    let mut cleaned = String::new();
    let mut i: usize = 0;
    assert(lv.skip(0) =~= lv);
    while i < ls.len()
        invariant
            i <= ls@.len(),
            lv == views(ls@),
            lv == lines(config@),
            header@ == "[Autologin]"@,
            cleaned@ + kept_lines(lv.skip(i as int), skip) == without_autologin(config@),
        decreases ls.len() - i,
    {
        let line = chars_of(ls[i].as_str());
        assert(line@ == lv[i as int]);
        assert(lv.skip(i as int)[0] == lv[i as int]);
        assert(lv.skip(i as int).drop_first() =~= lv.skip(i + 1));
        let ghost old_skip = skip;
        let (a, b) = trim_bounds(&line);
        if b > a && line[a] == '[' && line[b - 1] == ']' {
            skip = range_eq_ignore_ascii_case(&line, a, b, &header);
        }
        let ghost before = cleaned@;
        if !skip {
            cleaned.append(ls[i].as_str());
            push_char(&mut cleaned, '\n');
        }
        assert(cleaned@ + kept_lines(lv.skip(i + 1), skip) =~= before + kept_lines(
            lv.skip(i as int),
            old_skip,
        ));
        i = i + 1;
    }
    assert(kept_lines(lv.skip(ls@.len() as int), skip) =~= Seq::<char>::empty());
    cleaned
}

} // verus!
