//! Character classes and the few string operations that the setup rules are
//! written in: Unicode white space, trimming, lines and separators.

use vstd::prelude::*;

verus! {

/// Unicode `White_Space`: the characters that `char::is_whitespace`,
/// `str::trim` and `str::split_whitespace` treat as white space.
pub open spec fn spec_is_whitespace(c: char) -> bool {
    ||| ('\u{9}' <= c && c <= '\u{d}')
    ||| c == ' '
    ||| c == '\u{85}'
    ||| c == '\u{a0}'
    ||| c == '\u{1680}'
    ||| ('\u{2000}' <= c && c <= '\u{200a}')
    ||| c == '\u{2028}'
    ||| c == '\u{2029}'
    ||| c == '\u{202f}'
    ||| c == '\u{205f}'
    ||| c == '\u{3000}'
}

#[verifier::when_used_as_spec(spec_is_whitespace)]
pub fn is_whitespace(c: char) -> (r: bool)
    ensures
        r == spec_is_whitespace(c),
{
    ('\u{9}' <= c && c <= '\u{d}') || c == ' ' || c == '\u{85}' || c == '\u{a0}' || c
        == '\u{1680}' || ('\u{2000}' <= c && c <= '\u{200a}') || c == '\u{2028}' || c
        == '\u{2029}' || c == '\u{202f}' || c == '\u{205f}' || c == '\u{3000}'
}

/// Unicode general category `Cc`, which is what `char::is_control` tests.
pub open spec fn spec_is_control(c: char) -> bool {
    c <= '\u{1f}' || ('\u{7f}' <= c && c <= '\u{9f}')
}

#[verifier::when_used_as_spec(spec_is_control)]
pub fn is_control(c: char) -> (r: bool)
    ensures
        r == spec_is_control(c),
{
    c <= '\u{1f}' || ('\u{7f}' <= c && c <= '\u{9f}')
}

pub open spec fn spec_is_ascii_digit(c: char) -> bool {
    '0' <= c && c <= '9'
}

#[verifier::when_used_as_spec(spec_is_ascii_digit)]
pub fn is_ascii_digit(c: char) -> (r: bool)
    ensures
        r == spec_is_ascii_digit(c),
{
    '0' <= c && c <= '9'
}

pub open spec fn spec_is_ascii_lowercase(c: char) -> bool {
    'a' <= c && c <= 'z'
}

#[verifier::when_used_as_spec(spec_is_ascii_lowercase)]
pub fn is_ascii_lowercase(c: char) -> (r: bool)
    ensures
        r == spec_is_ascii_lowercase(c),
{
    'a' <= c && c <= 'z'
}

pub open spec fn spec_is_ascii_uppercase(c: char) -> bool {
    'A' <= c && c <= 'Z'
}

#[verifier::when_used_as_spec(spec_is_ascii_uppercase)]
pub fn is_ascii_uppercase(c: char) -> (r: bool)
    ensures
        r == spec_is_ascii_uppercase(c),
{
    'A' <= c && c <= 'Z'
}

pub open spec fn spec_is_ascii_alphabetic(c: char) -> bool {
    spec_is_ascii_lowercase(c) || spec_is_ascii_uppercase(c)
}

#[verifier::when_used_as_spec(spec_is_ascii_alphabetic)]
pub fn is_ascii_alphabetic(c: char) -> (r: bool)
    ensures
        r == spec_is_ascii_alphabetic(c),
{
    is_ascii_lowercase(c) || is_ascii_uppercase(c)
}

pub open spec fn spec_is_ascii_alphanumeric(c: char) -> bool {
    spec_is_ascii_alphabetic(c) || spec_is_ascii_digit(c)
}

#[verifier::when_used_as_spec(spec_is_ascii_alphanumeric)]
pub fn is_ascii_alphanumeric(c: char) -> (r: bool)
    ensures
        r == spec_is_ascii_alphanumeric(c),
{
    is_ascii_alphabetic(c) || is_ascii_digit(c)
}

pub open spec fn spec_is_ascii(c: char) -> bool {
    c <= '\u{7f}'
}

#[verifier::when_used_as_spec(spec_is_ascii)]
pub fn is_ascii(c: char) -> (r: bool)
    ensures
        r == spec_is_ascii(c),
{
    c <= '\u{7f}'
}

/// `char::to_ascii_lowercase`: `A`..`Z` become `a`..`z`, every other
/// character stays.
pub open spec fn spec_to_ascii_lowercase(c: char) -> char {
    if spec_is_ascii_uppercase(c) {
        ((c as u32) + 32) as char
    } else {
        c
    }
}

#[verifier::when_used_as_spec(spec_to_ascii_lowercase)]
pub fn to_ascii_lowercase(c: char) -> (r: char)
    ensures
        r == spec_to_ascii_lowercase(c),
{
    if is_ascii_uppercase(c) {
        let b: u8 = c as u8;
        (b + 32) as char
    } else {
        c
    }
}

/// Two strings that are equal once ASCII letters are lower-cased, as
/// `str::eq_ignore_ascii_case` compares them.
pub open spec fn eq_ignore_ascii_case(a: Seq<char>, b: Seq<char>) -> bool {
    &&& a.len() == b.len()
    &&& forall|i: int|
        0 <= i < a.len() ==> #[trigger] spec_to_ascii_lowercase(a[i]) == spec_to_ascii_lowercase(
            b[i],
        )
}

/// The number of bytes that UTF-8 takes for `c`.
pub open spec fn utf8_width(c: char) -> nat {
    if c <= '\u{7f}' {
        1
    } else if c <= '\u{7ff}' {
        2
    } else if c <= '\u{ffff}' {
        3
    } else {
        4
    }
}

/// The number of bytes of `s` in UTF-8, which is what `str::len` gives.
pub open spec fn utf8_len(s: Seq<char>) -> nat
    decreases s.len(),
{
    if s.len() == 0 {
        0
    } else {
        utf8_len(s.drop_last()) + utf8_width(s.last())
    }
}

/// The number of bytes that UTF-8 takes for `c`.
pub(crate) fn utf8_width_exec(c: char) -> (w: usize)
    ensures
        w == utf8_width(c),
{
    if c <= '\u{7f}' {
        1
    } else if c <= '\u{7ff}' {
        2
    } else if c <= '\u{ffff}' {
        3
    } else {
        4
    }
}

/// Whether `chars` takes more than `limit` bytes in UTF-8.
pub fn utf8_len_exceeds(chars: &Vec<char>, limit: usize) -> (r: bool)
    requires
        limit < usize::MAX - 4,
    ensures
        r == (utf8_len(chars@) > limit),
{
    let mut total: usize = 0;
    let mut i: usize = 0;
    assert(chars@.take(0) =~= Seq::<char>::empty());
    while i < chars.len()
        invariant
            i <= chars@.len(),
            limit < usize::MAX - 4,
            total == utf8_len(chars@.take(i as int)),
            total <= limit,
        decreases chars.len() - i,
    {
        assert(chars@.take(i + 1).drop_last() =~= chars@.take(i as int));
        total = total + utf8_width_exec(chars[i]);
        i = i + 1;
        if total > limit {
            proof {
                lemma_utf8_len_prefix(chars@, i as int);
            }
            return true;
        }
    }
    assert(chars@.take(chars@.len() as int) =~= chars@);
    false
}

/// A prefix takes no more bytes than the whole.
pub proof fn lemma_utf8_len_prefix(s: Seq<char>, k: int)
    requires
        0 <= k <= s.len(),
    ensures
        utf8_len(s.take(k)) <= utf8_len(s),
    decreases s.len() - k,
{
    if k < s.len() {
        lemma_utf8_len_prefix(s, k + 1);
        assert(s.take(k + 1).drop_last() =~= s.take(k));
    } else {
        assert(s.take(k) =~= s);
    }
}

/// The characters of `s`, in order.
pub fn chars_of(s: &str) -> (v: Vec<char>)
    ensures
        v@ == s@,
{
    let mut v: Vec<char> = Vec::new();
    for c in it: s.chars()
        invariant
            v@ == it.seq().take(it.index() as int),
    {
        v.push(c);
    }
    v
}

/// `String::push`: appends one character.
#[verifier::external_body]
pub(crate) fn push_char(s: &mut String, c: char)
    ensures
        final(s)@ == old(s)@.push(c),
{
    s.push(c);
}

/// A new string that holds `chars[from..to]`.
pub fn string_from_chars(chars: &Vec<char>, from: usize, to: usize) -> (s: String)
    requires
        from <= to <= chars@.len(),
    ensures
        s@ == chars@.subrange(from as int, to as int),
{
    let mut s = String::new();
    let mut i = from;
    while i < to
        invariant
            from <= i <= to <= chars@.len(),
            s@ == chars@.subrange(from as int, i as int),
        decreases to - i,
    {
        push_char(&mut s, chars[i]);
        i = i + 1;
    }
    s
}

/// A new string that holds `s`.
pub fn string_from(s: &str) -> (r: String)
    ensures
        r@ == s@,
{
    s.to_owned()
}

/// `a == b` on two string slices.
pub fn str_eq(a: &str, b: &str) -> (r: bool)
    ensures
        r == (a@ == b@),
{
    let x = chars_of(a);
    let y = chars_of(b);
    chars_eq(&x, &y)
}

/// `a == b` on two character vectors.
pub fn chars_eq(x: &Vec<char>, y: &Vec<char>) -> (r: bool)
    ensures
        r == (x@ == y@),
{
    if x.len() != y.len() {
        return false;
    }
    let mut i: usize = 0;
    while i < x.len()
        invariant
            x@.len() == y@.len(),
            i <= x@.len(),
            forall|j: int| 0 <= j < i ==> x@[j] == y@[j],
        decreases x.len() - i,
    {
        if x[i] != y[i] {
            return false;
        }
        i = i + 1;
    }
    assert(x@ =~= y@);
    true
}

/// Whether some character of `s` satisfies `spec_is_whitespace`.
pub open spec fn has_whitespace(s: Seq<char>) -> bool {
    exists|i: int| 0 <= i < s.len() && #[trigger] spec_is_whitespace(s[i])
}

pub fn contains_whitespace(chars: &Vec<char>) -> (r: bool)
    ensures
        r == has_whitespace(chars@),
{
    let mut i: usize = 0;
    while i < chars.len()
        invariant
            i <= chars@.len(),
            forall|j: int| 0 <= j < i ==> !spec_is_whitespace(#[trigger] chars@[j]),
        decreases chars.len() - i,
    {
        if is_whitespace(chars[i]) {
            return true;
        }
        i = i + 1;
    }
    false
}

/// `s` without its leading white space.
pub open spec fn trim_start(s: Seq<char>) -> Seq<char>
    decreases s.len(),
{
    if s.len() > 0 && spec_is_whitespace(s[0]) {
        trim_start(s.drop_first())
    } else {
        s
    }
}

/// `s` without its trailing white space.
pub open spec fn trim_end(s: Seq<char>) -> Seq<char>
    decreases s.len(),
{
    if s.len() > 0 && spec_is_whitespace(s.last()) {
        trim_end(s.drop_last())
    } else {
        s
    }
}

/// `str::trim`: `s` without leading and trailing white space.
pub open spec fn trim(s: Seq<char>) -> Seq<char> {
    trim_end(trim_start(s))
}

/// The bounds `(from, to)` of `trim(chars)` within `chars`.
pub fn trim_bounds(chars: &Vec<char>) -> (r: (usize, usize))
    ensures
        r.0 <= r.1 <= chars@.len(),
        chars@.subrange(r.0 as int, r.1 as int) == trim(chars@),
{
    let n = chars.len();
    let mut a: usize = 0;
    assert(chars@.skip(0) =~= chars@);
    while a < n && is_whitespace(chars[a])
        invariant
            a <= n == chars@.len(),
            trim_start(chars@) == trim_start(chars@.skip(a as int)),
        decreases n - a,
    {
        assert(chars@.skip(a as int).drop_first() =~= chars@.skip(a + 1));
        a = a + 1;
    }
    assert(trim_start(chars@) == chars@.skip(a as int));
    let mut b: usize = n;
    while b > a && is_whitespace(chars[b - 1])
        invariant
            a <= b <= n == chars@.len(),
            trim_start(chars@) == chars@.skip(a as int),
            trim(chars@) == trim_end(chars@.subrange(a as int, b as int)),
        decreases b,
    {
        assert(chars@.subrange(a as int, b as int).drop_last() =~= chars@.subrange(
            a as int,
            b - 1,
        ));
        b = b - 1;
    }
    assert(chars@.skip(a as int) =~= chars@.subrange(a as int, n as int));
    (a, b)
}

/// The index of the first `c` in `s`, or -1 where there is none.
pub open spec fn find_char(s: Seq<char>, c: char) -> int
    decreases s.len(),
{
    if s.len() == 0 {
        -1
    } else if s[0] == c {
        0
    } else {
        let r = find_char(s.drop_first(), c);
        if r < 0 {
            -1
        } else {
            r + 1
        }
    }
}

/// `find_char` is -1 or an index of `s`.
pub proof fn lemma_find_char_bound(s: Seq<char>, c: char)
    ensures
        -1 <= find_char(s, c) < s.len(),
        find_char(s, c) >= 0 ==> s[find_char(s, c)] == c,
    decreases s.len(),
{
    if s.len() > 0 {
        lemma_find_char_bound(s.drop_first(), c);
    }
}

/// `find_char` is the first position of `c`.
pub proof fn lemma_find_char(s: Seq<char>, c: char, k: int)
    requires
        0 <= k <= s.len(),
        forall|j: int| 0 <= j < k ==> s[j] != c,
    ensures
        k < s.len() && s[k] == c ==> find_char(s, c) == k,
        k == s.len() ==> find_char(s, c) == -1,
    decreases k,
{
    if k > 0 {
        lemma_find_char(s.drop_first(), c, k - 1);
    }
}

/// The index of the first white space character in `s`, or -1.
pub open spec fn find_whitespace(s: Seq<char>) -> int
    decreases s.len(),
{
    if s.len() == 0 {
        -1
    } else if spec_is_whitespace(s[0]) {
        0
    } else {
        let r = find_whitespace(s.drop_first());
        if r < 0 {
            -1
        } else {
            r + 1
        }
    }
}

pub proof fn lemma_find_whitespace_bound(s: Seq<char>)
    ensures
        -1 <= find_whitespace(s) < s.len(),
    decreases s.len(),
{
    if s.len() > 0 {
        lemma_find_whitespace_bound(s.drop_first());
    }
}

pub proof fn lemma_find_whitespace(s: Seq<char>, k: int)
    requires
        0 <= k <= s.len(),
        forall|j: int| 0 <= j < k ==> !spec_is_whitespace(#[trigger] s[j]),
    ensures
        k < s.len() && spec_is_whitespace(s[k]) ==> find_whitespace(s) == k,
        k == s.len() ==> find_whitespace(s) == -1,
    decreases k,
{
    if k > 0 {
        assert forall|j: int| 0 <= j < k - 1 implies !spec_is_whitespace(
            #[trigger] s.drop_first()[j],
        ) by {
            assert(s.drop_first()[j] == s[j + 1]);
        }
        lemma_find_whitespace(s.drop_first(), k - 1);
    }
}

/// `line` without one trailing carriage return.
pub open spec fn strip_cr(line: Seq<char>) -> Seq<char> {
    if line.len() > 0 && line.last() == '\r' {
        line.drop_last()
    } else {
        line
    }
}

/// `str::lines`: the text between line feeds, each line without a `\r`
/// that stands right before its line feed; the last line feed is optional
/// and an empty text has no lines.
pub open spec fn lines(s: Seq<char>) -> Seq<Seq<char>>
    decreases s.len(),
{
    if s.len() == 0 {
        seq![]
    } else {
        let i = find_char(s, '\n');
        proof {
            lemma_find_char_bound(s, '\n');
        }
        if i < 0 {
            seq![s]
        } else {
            seq![strip_cr(s.take(i))] + lines(s.skip(i + 1))
        }
    }
}

/// `str::split` on one separator: every piece, empty ones included.
pub open spec fn split(s: Seq<char>, sep: char) -> Seq<Seq<char>>
    decreases s.len(),
{
    let i = find_char(s, sep);
    proof {
        lemma_find_char_bound(s, sep);
    }
    if i < 0 {
        seq![s]
    } else {
        seq![s.take(i)] + split(s.skip(i + 1), sep)
    }
}

/// `str::split_whitespace`: the non-empty runs of characters between white
/// space.
pub open spec fn words(s: Seq<char>) -> Seq<Seq<char>>
    decreases s.len(),
{
    if s.len() == 0 {
        seq![]
    } else {
        let i = find_whitespace(s);
        proof {
            lemma_find_whitespace_bound(s);
        }
        if i < 0 {
            seq![s]
        } else if i == 0 {
            words(s.skip(1))
        } else {
            seq![s.take(i)] + words(s.skip(i + 1))
        }
    }
}

/// The views of a sequence of strings.
pub open spec fn views(v: Seq<String>) -> Seq<Seq<char>> {
    v.map_values(|x: String| x@)
}

/// `str::lines`.
pub fn lines_of(chars: &Vec<char>) -> (r: Vec<String>)
    ensures
        views(r@) == lines(chars@),
{
    let n = chars.len();
    let mut out: Vec<String> = Vec::new();
    let mut start: usize = 0;
    let mut i: usize = 0;
    assert(chars@.skip(0) =~= chars@);
    assert(views(out@) =~= Seq::<Seq<char>>::empty());
    while i < n
        invariant
            start <= i <= n == chars@.len(),
            forall|j: int| start <= j < i ==> chars@[j] != '\n',
            views(out@) + lines(chars@.skip(start as int)) == lines(chars@),
        decreases n - i,
    {
        if chars[i] == '\n' {
            let ghost rest = chars@.skip(start as int);
            proof {
                lemma_find_char(rest, '\n', i - start);
                assert(rest.take(i - start) =~= chars@.subrange(start as int, i as int));
                assert(rest.skip(i - start + 1) =~= chars@.skip(i + 1));
            }
            let mut end = i;
            if end > start && chars[end - 1] == '\r' {
                end = end - 1;
            }
            assert(chars@.subrange(start as int, end as int) =~= strip_cr(
                chars@.subrange(start as int, i as int),
            ));
            let line = string_from_chars(chars, start, end);
            let ghost before = views(out@);
            out.push(line);
            assert(views(out@) =~= before.push(line@));
            assert(views(out@) + lines(chars@.skip(i + 1)) =~= before + lines(rest));
            start = i + 1;
        }
        i = i + 1;
    }
    let ghost rest = chars@.skip(start as int);
    if start < n {
        proof {
            lemma_find_char(rest, '\n', rest.len() as int);
            assert(rest =~= chars@.subrange(start as int, n as int));
        }
        let line = string_from_chars(chars, start, n);
        let ghost before = views(out@);
        out.push(line);
        assert(views(out@) =~= before.push(line@));
        assert(views(out@) =~= before + lines(rest));
    } else {
        assert(rest.len() == 0);
        assert(views(out@) =~= views(out@) + lines(rest));
    }
    out
}

/// The pieces of `chars` between the separators `sep`.
pub fn split_chars(chars: &Vec<char>, sep: char) -> (r: Vec<String>)
    ensures
        views(r@) == split(chars@, sep),
{
    let n = chars.len();
    let mut out: Vec<String> = Vec::new();
    let mut start: usize = 0;
    let mut i: usize = 0;
    assert(chars@.skip(0) =~= chars@);
    assert(views(out@) =~= Seq::<Seq<char>>::empty());
    while i < n
        invariant
            start <= i <= n == chars@.len(),
            forall|j: int| start <= j < i ==> chars@[j] != sep,
            views(out@) + split(chars@.skip(start as int), sep) == split(chars@, sep),
        decreases n - i,
    {
        if chars[i] == sep {
            let ghost rest = chars@.skip(start as int);
            proof {
                lemma_find_char(rest, sep, i - start);
                assert(rest.take(i - start) =~= chars@.subrange(start as int, i as int));
                assert(rest.skip(i - start + 1) =~= chars@.skip(i + 1));
            }
            let piece = string_from_chars(chars, start, i);
            let ghost before = views(out@);
            out.push(piece);
            assert(views(out@) =~= before.push(piece@));
            assert(views(out@) + split(chars@.skip(i + 1), sep) =~= before + split(rest, sep));
            start = i + 1;
        }
        i = i + 1;
    }
    let ghost rest = chars@.skip(start as int);
    proof {
        lemma_find_char(rest, sep, rest.len() as int);
        assert(rest =~= chars@.subrange(start as int, n as int));
    }
    let piece = string_from_chars(chars, start, n);
    let ghost before = views(out@);
    out.push(piece);
    assert(views(out@) =~= before.push(piece@));
    assert(views(out@) =~= before + split(rest, sep));
    out
}

/// `str::split_whitespace`.
pub fn words_of(chars: &Vec<char>) -> (r: Vec<String>)
    ensures
        views(r@) == words(chars@),
{
    let n = chars.len();
    let mut out: Vec<String> = Vec::new();
    let mut start: usize = 0;
    let mut i: usize = 0;
    assert(chars@.skip(0) =~= chars@);
    assert(views(out@) =~= Seq::<Seq<char>>::empty());
    while i < n
        invariant
            start <= i <= n == chars@.len(),
            forall|j: int| start <= j < i ==> !spec_is_whitespace(#[trigger] chars@[j]),
            views(out@) + words(chars@.skip(start as int)) == words(chars@),
        decreases n - i,
    {
        if is_whitespace(chars[i]) {
            let ghost rest = chars@.skip(start as int);
            proof {
                assert forall|j: int| 0 <= j < i - start implies !spec_is_whitespace(
                    #[trigger] rest[j],
                ) by {
                    assert(rest[j] == chars@[start + j]);
                }
                lemma_find_whitespace(rest, i - start);
                assert(rest.take(i - start) =~= chars@.subrange(start as int, i as int));
                assert(rest.skip(i - start + 1) =~= chars@.skip(i + 1));
            }
            if i > start {
                let piece = string_from_chars(chars, start, i);
                let ghost before = views(out@);
                out.push(piece);
                assert(views(out@) =~= before.push(piece@));
                assert(views(out@) + words(chars@.skip(i + 1)) =~= before + words(rest));
            } else {
                assert(rest.skip(1) =~= chars@.skip(i + 1));
            }
            start = i + 1;
        }
        i = i + 1;
    }
    let ghost rest = chars@.skip(start as int);
    if start < n {
        proof {
            assert forall|j: int| 0 <= j < rest.len() implies !spec_is_whitespace(
                #[trigger] rest[j],
            ) by {
                assert(rest[j] == chars@[start + j]);
            }
            lemma_find_whitespace(rest, rest.len() as int);
            assert(rest =~= chars@.subrange(start as int, n as int));
        }
        let piece = string_from_chars(chars, start, n);
        let ghost before = views(out@);
        out.push(piece);
        assert(views(out@) =~= before.push(piece@));
        assert(views(out@) =~= before + words(rest));
    } else {
        assert(rest.len() == 0);
        assert(views(out@) =~= views(out@) + words(rest));
    }
    out
}

/// `str::eq_ignore_ascii_case` between `chars[from..to]` and `t`.
pub fn range_eq_ignore_ascii_case(chars: &Vec<char>, from: usize, to: usize, t: &Vec<char>) -> (r:
    bool)
    requires
        from <= to <= chars@.len(),
    ensures
        r == eq_ignore_ascii_case(chars@.subrange(from as int, to as int), t@),
{
    let ghost a = chars@.subrange(from as int, to as int);
    if to - from != t.len() {
        return false;
    }
    let mut i: usize = 0;
    while i < t.len()
        invariant
            from <= to <= chars@.len(),
            a == chars@.subrange(from as int, to as int),
            to - from == t@.len(),
            i <= t@.len(),
            forall|j: int|
                0 <= j < i ==> #[trigger] spec_to_ascii_lowercase(a[j]) == spec_to_ascii_lowercase(
                    t@[j],
                ),
        decreases t.len() - i,
    {
        assert(a[i as int] == chars@[from + i]);
        if to_ascii_lowercase(chars[from + i]) != to_ascii_lowercase(t[i]) {
            return false;
        }
        i = i + 1;
    }
    true
}

/// `s` without the characters `c` at its end.
pub open spec fn trim_end_char(s: Seq<char>, c: char) -> Seq<char>
    decreases s.len(),
{
    if s.len() > 0 && s.last() == c {
        trim_end_char(s.drop_last(), c)
    } else {
        s
    }
}

/// `str::trim_end_matches` with one character.
pub fn trim_end_char_str(s: &str, c: char) -> (r: String)
    ensures
        r@ == trim_end_char(s@, c),
{
    let chars = chars_of(s);
    let mut end = chars.len();
    assert(chars@.take(end as int) =~= chars@);
    while end > 0 && chars[end - 1] == c
        invariant
            end <= chars@.len(),
            trim_end_char(chars@, c) == trim_end_char(chars@.take(end as int), c),
        decreases end,
    {
        assert(chars@.take(end as int).drop_last() =~= chars@.take(end - 1));
        end = end - 1;
    }
    assert(chars@.subrange(0, end as int) =~= chars@.take(end as int));
    string_from_chars(&chars, 0, end)
}

/// `s` without the carriage returns and line feeds at its end.
pub open spec fn trim_end_newlines(s: Seq<char>) -> Seq<char>
    decreases s.len(),
{
    if s.len() > 0 && (s.last() == '\r' || s.last() == '\n') {
        trim_end_newlines(s.drop_last())
    } else {
        s
    }
}

/// `str::trim_end_matches(['\r', '\n'])`.
pub fn trim_end_newlines_str(s: &str) -> (r: String)
    ensures
        r@ == trim_end_newlines(s@),
{
    let chars = chars_of(s);
    let mut end = chars.len();
    assert(chars@.take(end as int) =~= chars@);
    while end > 0 && (chars[end - 1] == '\r' || chars[end - 1] == '\n')
        invariant
            end <= chars@.len(),
            trim_end_newlines(chars@) == trim_end_newlines(chars@.take(end as int)),
        decreases end,
    {
        assert(chars@.take(end as int).drop_last() =~= chars@.take(end - 1));
        end = end - 1;
    }
    assert(chars@.subrange(0, end as int) =~= chars@.take(end as int));
    string_from_chars(&chars, 0, end)
}

} // verus!
