//! The hidden login name that setup derives from the display name, and the
//! numbered variants it falls back to when a name is taken.

use vstd::prelude::*;
use vstd::string::*;
use crate::account::{is_login_char, username_problem, TEMPORARY_USER};
use crate::number::{decimal, digit_char, push_decimal};
use crate::text::{
    chars_of, is_ascii_alphabetic, is_ascii_alphanumeric, is_ascii_lowercase, push_char,
    spec_is_ascii, spec_is_ascii_alphabetic, spec_is_ascii_alphanumeric, spec_is_ascii_lowercase,
    spec_to_ascii_lowercase, str_eq, string_from_chars, to_ascii_lowercase, utf8_len, utf8_width, utf8_width_exec,
    views, words, words_of, has_whitespace, spec_is_whitespace, spec_is_ascii_uppercase,
    spec_is_ascii_digit,
};
use crate::transliterate::{is_transliteration, transliterate_word};

verus! {

/// The ASCII letters and digits of `t`, lower-cased, in order.
pub open spec fn normalized(t: Seq<char>) -> Seq<char>
    decreases t.len(),
{
    if t.len() == 0 {
        seq![]
    } else if spec_is_ascii_alphanumeric(t.last()) {
        normalized(t.drop_last()).push(spec_to_ascii_lowercase(t.last()))
    } else {
        normalized(t.drop_last())
    }
}

/// A login name piece: lowercase ASCII letters and digits.
pub open spec fn is_name_piece(s: Seq<char>) -> bool {
    forall|i: int|
        0 <= i < s.len() ==> (spec_is_ascii_lowercase(#[trigger] s[i]) || ('0' <= s[i] && s[i]
            <= '9'))
}

proof fn lemma_normalized_piece(t: Seq<char>)
    ensures
        is_name_piece(normalized(t)),
    decreases t.len(),
{
    if t.len() > 0 {
        lemma_normalized_piece(t.drop_last());
    }
}

fn normalize(t: &str) -> (r: Vec<char>)
    ensures
        r@ == normalized(t@),
{
    let chars = chars_of(t);
    let mut out: Vec<char> = Vec::new();
    let mut i: usize = 0;
    assert(chars@.take(0) =~= Seq::<char>::empty());
    while i < chars.len()
        invariant
            i <= chars@.len(),
            out@ == normalized(chars@.take(i as int)),
        decreases chars.len() - i,
    {
        assert(chars@.take(i + 1).drop_last() =~= chars@.take(i as int));
        let c = chars[i];
        if is_ascii_alphanumeric(c) {
            out.push(to_ascii_lowercase(c));
        }
        i = i + 1;
    }
    assert(chars@.take(chars@.len() as int) =~= chars@);
    out
}

/// One word of a display name as a login name piece: transliterated, then
/// only its ASCII letters and digits, lower-cased.
pub fn normalized_username_word<F: Fn(&str) -> Option<String>>(
    word: &str,
    transliterate_with_icu: &F,
) -> (r: String)
    requires
        forall|w: &str| call_requires(*transliterate_with_icu, (w,)),
    ensures
        exists|t: Seq<char>|
            is_transliteration(transliterate_with_icu, word@, t) && r@ == normalized(t),
{
    let t = transliterate_word(word, transliterate_with_icu);
    let n = normalize(t.as_str());
    let r = string_from_chars(&n, 0, n.len());
    assert(n@.subrange(0, n@.len() as int) =~= n@);
    r
}

/// The pieces that are not empty, in order.
pub open spec fn non_empty(ws: Seq<Seq<char>>) -> Seq<Seq<char>>
    decreases ws.len(),
{
    if ws.len() == 0 {
        seq![]
    } else if ws.last().len() > 0 {
        non_empty(ws.drop_last()).push(ws.last())
    } else {
        non_empty(ws.drop_last())
    }
}

/// The first ASCII letter of `w`, or nothing where it has none.
pub open spec fn initial(w: Seq<char>) -> Seq<char>
    decreases w.len(),
{
    if w.len() == 0 {
        seq![]
    } else if spec_is_ascii_alphabetic(w[0]) {
        seq![w[0]]
    } else {
        initial(w.drop_first())
    }
}

/// The initials of the pieces `ws`, in order.
pub open spec fn initials(ws: Seq<Seq<char>>) -> Seq<char>
    decreases ws.len(),
{
    if ws.len() == 0 {
        seq![]
    } else {
        initials(ws.drop_last()) + initial(ws.last())
    }
}

/// The login name base for the non-empty pieces `ws`: `user` where there
/// are none, the first piece followed by the initials of the others,
/// prefixed by `user` where it does not start with a lowercase letter, and
/// cut to 32 characters.
pub open spec fn base_of_pieces(ws: Seq<Seq<char>>) -> Seq<char> {
    let joined = if ws.len() == 0 {
        "user"@
    } else {
        ws[0] + initials(ws.drop_first())
    };
    let named = if joined.len() > 0 && spec_is_ascii_lowercase(joined[0]) {
        joined
    } else {
        "user"@ + joined
    };
    if named.len() > 32 {
        named.take(32)
    } else {
        named
    }
}

/// The login name base for the transliterated words `ts` of a display name.
pub open spec fn base_of_transliterations(ts: Seq<Seq<char>>) -> Seq<char> {
    base_of_pieces(non_empty(ts.map_values(|t: Seq<char>| normalized(t))))
}

fn initial_of(w: &Vec<char>) -> (r: Option<char>)
    ensures
        match r {
            Some(c) => initial(w@) == seq![c],
            None => initial(w@) == Seq::<char>::empty(),
        },
{
    let mut i: usize = 0;
    assert(w@.skip(0) =~= w@);
    while i < w.len()
        invariant
            i <= w@.len(),
            initial(w@) == initial(w@.skip(i as int)),
        decreases w.len() - i,
    {
        assert(w@.skip(i as int).drop_first() =~= w@.skip(i + 1));
        if is_ascii_alphabetic(w[i]) {
            return Some(w[i]);
        }
        i = i + 1;
    }
    None
}

/// The login name base for the non-empty pieces `pieces`.
pub fn username_base_from_pieces(pieces: &Vec<Vec<char>>) -> (r: String)
    ensures
        r@ == base_of_pieces(pieces@.map_values(|p: Vec<char>| p@)),
{
    let ghost ws = pieces@.map_values(|p: Vec<char>| p@);
    proof {
        reveal_strlit("user");
    }
    let mut joined: Vec<char> = Vec::new();
    if pieces.len() == 0 {
        joined.push('u');
        joined.push('s');
        joined.push('e');
        joined.push('r');
        assert(joined@ =~= "user"@);
    } else {
        let first = &pieces[0];
        let mut k: usize = 0;
        while k < first.len()
            invariant
                k <= first@.len(),
                joined@ == first@.take(k as int),
            decreases first.len() - k,
        {
            joined.push(first[k]);
            k = k + 1;
            assert(joined@ =~= first@.take(k as int));
        }
        assert(first@.take(first@.len() as int) =~= first@);
        let mut i: usize = 1;
        assert(ws.drop_first().take(0) =~= Seq::<Seq<char>>::empty());
        while i < pieces.len()
            invariant
                1 <= i <= pieces@.len(),
                ws == pieces@.map_values(|p: Vec<char>| p@),
                joined@ == ws[0] + initials(ws.drop_first().take(i - 1)),
            decreases pieces.len() - i,
        {
            assert(ws.drop_first().take(i as int).drop_last() =~= ws.drop_first().take(i - 1));
            assert(ws.drop_first().take(i as int).last() == pieces@[i as int]@);
            match initial_of(&pieces[i]) {
                Some(c) => {
                    joined.push(c);
                },
                None => {},
            }
            i = i + 1;
        }
        assert(ws.drop_first().take(pieces@.len() - 1) =~= ws.drop_first());
    }
    let mut named: Vec<char> = Vec::new();
    if !(joined.len() > 0 && is_ascii_lowercase(joined[0])) {
        named.push('u');
        named.push('s');
        named.push('e');
        named.push('r');
    }
    let ghost prefix = named@;
    let mut k: usize = 0;
    while k < joined.len()
        invariant
            k <= joined@.len(),
            named@ == prefix + joined@.take(k as int),
        decreases joined.len() - k,
    {
        named.push(joined[k]);
        k = k + 1;
        assert(named@ =~= prefix + joined@.take(k as int));
    }
    assert(joined@.take(joined@.len() as int) =~= joined@);
    proof {
        if !(joined@.len() > 0 && spec_is_ascii_lowercase(joined@[0])) {
            assert(named@ =~= "user"@ + joined@);
        } else {
            assert(named@ =~= joined@);
        }
    }
    let end = if named.len() > 32 {
        32
    } else {
        named.len()
    };
    let r = string_from_chars(&named, 0, end);
    assert(named@.subrange(0, end as int) =~= (if named@.len() > 32 {
        named@.take(32)
    } else {
        named@
    }));
    r
}

/// Whether `ts` transliterates, one by one, the words `ws`.
pub open spec fn transliterates_words<F: Fn(&str) -> Option<String>>(
    icu: &F,
    ws: Seq<Seq<char>>,
    ts: Seq<Seq<char>>,
) -> bool {
    &&& ts.len() == ws.len()
    &&& forall|k: int| 0 <= k < ws.len() ==> #[trigger] is_transliteration(icu, ws[k], ts[k])
}

/// Whether `base` is a login name base that setup can derive from the
/// display name `d`, for some transliteration of its words.
pub open spec fn is_username_base_of<F: Fn(&str) -> Option<String>>(
    icu: &F,
    d: Seq<char>,
    base: Seq<char>,
) -> bool {
    exists|ts: Seq<Seq<char>>|
        #![trigger transliterates_words(icu, words(d), ts)]
        transliterates_words(icu, words(d), ts) && base == base_of_transliterations(ts)
}

/// Derives the login name base from a display name: its words split at
/// white space, each transliterated and reduced to lowercase ASCII letters
/// and digits, words left empty dropped; then the first word followed by
/// the initial of every other word, `user` where nothing is left, `user`
/// in front where it does not start with a letter, at most 32 characters.
pub fn username_base_from_display_name<F: Fn(&str) -> Option<String>>(
    display_name: &str,
    transliterate_with_icu: &F,
) -> (r: String)
    requires
        forall|w: &str| call_requires(*transliterate_with_icu, (w,)),
    ensures
        is_username_base_of(transliterate_with_icu, display_name@, r@),
        is_login_base(r@),
        username_problem(r@) is None || r@ == TEMPORARY_USER@,
{
    let ws = words_of(&chars_of(display_name));
    let ghost wv = views(ws@);
    let mut pieces: Vec<Vec<char>> = Vec::new();
    let ghost mut ts: Seq<Seq<char>> = seq![];
    let mut i: usize = 0;
    while i < ws.len()
        invariant
            i <= ws@.len(),
            wv == views(ws@),
            wv == words(display_name@),
            forall|w: &str| call_requires(*transliterate_with_icu, (w,)),
            transliterates_words(transliterate_with_icu, wv.take(i as int), ts),
            pieces@.map_values(|p: Vec<char>| p@) == non_empty(
                ts.map_values(|t: Seq<char>| normalized(t)),
            ),
        decreases ws.len() - i,
    {
        assert(ws@[i as int]@ == wv[i as int]);
        let t = transliterate_word(ws[i].as_str(), transliterate_with_icu);
        let n = normalize(t.as_str());
        let ghost old_ts = ts;
        let ghost old_pieces = pieces@.map_values(|p: Vec<char>| p@);
        proof {
            ts = ts.push(t@);
        }
        assert(ts.map_values(|t: Seq<char>| normalized(t)).drop_last() =~= old_ts.map_values(
            |t: Seq<char>| normalized(t),
        ));
        if n.len() > 0 {
            pieces.push(n);
            assert(pieces@.map_values(|p: Vec<char>| p@) =~= old_pieces.push(n@));
        }
        assert(wv.take(i + 1).drop_last() =~= wv.take(i as int));
        assert forall|k: int| 0 <= k < wv.take(i + 1).len() implies #[trigger] is_transliteration(
            transliterate_with_icu,
            wv.take(i + 1)[k],
            ts[k],
        ) by {
            if k < i {
                assert(wv.take(i + 1)[k] == wv.take(i as int)[k]);
            }
        }
        i = i + 1;
    }
    assert(wv.take(ws@.len() as int) =~= wv);
    let r = username_base_from_pieces(&pieces);
    assert(transliterates_words(transliterate_with_icu, words(display_name@), ts));
    proof {
        lemma_base_is_login_base(ts);
        lemma_candidate_is_valid_login(r@, 0);
        lemma_ascii_byte_prefix(r@, 32);
        assert(r@.take(r@.len() as int) =~= r@);
    }
    r
}

/// The longest start of `s` that takes at most `n` bytes in UTF-8: what
/// `&s[..n]` gives where `n` falls between two characters.
pub open spec fn byte_prefix(s: Seq<char>, n: int) -> Seq<char>
    decreases s.len(),
{
    if s.len() == 0 || utf8_width(s[0]) > n {
        seq![]
    } else {
        seq![s[0]] + byte_prefix(s.drop_first(), n - utf8_width(s[0]))
    }
}

/// Whether cutting `s` after `n` bytes falls between two characters (or
/// after its end), so that `&s[..n]` does not panic.
pub open spec fn cuts_cleanly(s: Seq<char>, n: int) -> bool {
    utf8_len(s) <= n || utf8_len(byte_prefix(s, n)) == n
}

/// The text that numbered login names are made from: `base`, or `user`
/// where it is empty.
pub open spec fn stem_source(base: Seq<char>) -> Seq<char> {
    if base.len() == 0 {
        "user"@
    } else {
        base
    }
}

/// The number of bytes kept from the stem for the candidate `k`.
pub open spec fn kept_bytes(k: nat) -> int {
    if k == 0 {
        32
    } else if decimal(k + 1).len() >= 32 {
        0
    } else {
        32 - decimal(k + 1).len()
    }
}

/// The login names tried for `base`, in order: `k == 0` is the stem cut
/// to 32 bytes; `k >= 1` is the stem cut so that the number `k + 1` still
/// fits in 32 bytes, followed by that number.
pub open spec fn candidate(base: Seq<char>, k: nat) -> Seq<char> {
    let stem = byte_prefix(stem_source(base), kept_bytes(k));
    if k == 0 {
        stem
    } else {
        stem + decimal(k + 1)
    }
}

/// The number of candidates: the first one, then those numbered `2` to
/// `u32::MAX`.
pub open spec fn candidate_count() -> nat {
    u32::MAX as nat
}

/// Whether `is_unavailable`, called on a text that reads `name`, answered
/// `taken`.
pub open spec fn answered<F: Fn(&str) -> bool>(is_unavailable: &F, name: Seq<char>, taken: bool) -> bool {
    exists|s: &str| s@ == name && call_ensures(*is_unavailable, (s,), taken)
}

/// Whether `r` is what trying the candidates for `base` in order gives,
/// for the answers of `is_unavailable`: the first candidate it called
/// available, every earlier one having been called taken; or nothing where
/// every candidate was called taken.
pub open spec fn first_available<F: Fn(&str) -> bool>(
    is_unavailable: &F,
    base: Seq<char>,
    r: Option<Seq<char>>,
) -> bool {
    match r {
        Some(name) => exists|k: nat|
            #![trigger candidate(base, k)]
            k < candidate_count() && name == candidate(base, k) && answered(
                is_unavailable,
                candidate(base, k),
                false,
            ) && forall|j: nat|
                j < k ==> #[trigger] answered(is_unavailable, candidate(base, j), true),
        None => forall|j: nat|
            j < candidate_count() ==> #[trigger] answered(is_unavailable, candidate(base, j), true),
    }
}

/// `&s[..n]`, the start of `s` that fits in `n` bytes.
fn push_byte_prefix(out: &mut String, s: &Vec<char>, n: usize)
    ensures
        final(out)@ == old(out)@ + byte_prefix(s@, n as int),
{
    let mut used: usize = 0;
    let mut i: usize = 0;
    assert(s@.skip(0) =~= s@);
    while i < s.len() && utf8_width_exec(s[i]) <= n - used
        invariant
            i <= s@.len(),
            used <= n,
            old(out)@ + byte_prefix(s@, n as int) == out@ + byte_prefix(
                s@.skip(i as int),
                n - used,
            ),
        decreases s.len() - i,
    {
        let c = s[i];
        assert(s@.skip(i as int).drop_first() =~= s@.skip(i + 1));
        assert(s@.skip(i as int)[0] == c);
        push_char(out, c);
        used = used + utf8_width_exec(c);
        i = i + 1;
    }
    if i < s.len() {
        assert(s@.skip(i as int)[0] == s@[i as int]);
    }
    assert(out@ + byte_prefix(s@.skip(i as int), n - used) =~= out@);
}

/// The login name for `base` that `is_unavailable` does not call taken:
/// the base cut to 32 bytes, else the base followed by `2`, `3` and so on,
/// cut so that the whole still fits in 32 bytes; an empty base stands for
/// `user`. Gives `None` only where every numbered name up to `u32::MAX` was
/// called taken.
pub fn unique_username_from_base<F: Fn(&str) -> bool>(base: &str, is_unavailable: &F) -> (r:
    Option<String>)
    requires
        forall|s: &str| call_requires(*is_unavailable, (s,)),
        forall|k: nat|
            k < candidate_count() ==> #[trigger] cuts_cleanly(
                stem_source(base@),
                kept_bytes(k),
            ),
    ensures
        first_available(
            is_unavailable,
            base@,
            match r {
                Some(name) => Some(name@),
                None => None,
            },
        ),
{
    proof {
        reveal_strlit("user");
    }
    let source: Vec<char> = if base.is_empty() {
        let mut v: Vec<char> = Vec::new();
        v.push('u');
        v.push('s');
        v.push('e');
        v.push('r');
        assert(v@ =~= "user"@);
        v
    } else {
        chars_of(base)
    };
    let mut first = String::new();
    push_byte_prefix(&mut first, &source, 32);
    assert(first@ =~= candidate(base@, 0));
    let taken = is_unavailable(first.as_str());
    assert(answered(is_unavailable, candidate(base@, 0), taken));
    if !taken {
        return Some(first);
    }
    let mut suffix: u32 = 2;
    loop
        invariant
            2 <= suffix,
            source@ == stem_source(base@),
            forall|s: &str| call_requires(*is_unavailable, (s,)),
            forall|j: nat| j < suffix - 1 ==> #[trigger] answered(is_unavailable, candidate(base@, j), true),
        decreases u32::MAX - suffix,
    {
        let mut number = String::new();
        push_decimal(&mut number, suffix);
        let digits = number.as_str().unicode_len();
        let keep: usize = if digits >= 32 {
            0
        } else {
            32 - digits
        };
        let mut name = String::new();
        push_byte_prefix(&mut name, &source, keep);
        name.append(number.as_str());
        let ghost k: nat = (suffix - 1) as nat;
        assert(k + 1 == suffix);
        assert(name@ =~= candidate(base@, k));
        let taken = is_unavailable(name.as_str());
        assert(answered(is_unavailable, candidate(base@, k), taken));
        if !taken {
            return Some(name);
        }
        if suffix == u32::MAX {
            assert forall|j: nat| j < candidate_count() implies #[trigger] answered(
                is_unavailable,
                candidate(base@, j),
                true,
            ) by {
                if j == k {
                } else {
                    assert(j < suffix - 1);
                }
            }
            return None;
        }
        suffix = suffix + 1;
    }
}

/// Every character of `s` is ASCII.
pub open spec fn all_ascii(s: Seq<char>) -> bool {
    forall|i: int| 0 <= i < s.len() ==> #[trigger] spec_is_ascii(s[i])
}

proof fn lemma_ascii_utf8_len(s: Seq<char>)
    requires
        all_ascii(s),
    ensures
        utf8_len(s) == s.len(),
    decreases s.len(),
{
    if s.len() > 0 {
        assert(spec_is_ascii(s[s.len() - 1]));
        lemma_ascii_utf8_len(s.drop_last());
    }
}

proof fn lemma_ascii_byte_prefix(s: Seq<char>, n: int)
    requires
        all_ascii(s),
        n >= 0,
    ensures
        byte_prefix(s, n) == s.take(if n < s.len() {
            n
        } else {
            s.len() as int
        }),
    decreases s.len(),
{
    if s.len() > 0 {
        assert(spec_is_ascii(s[0]));
        if n >= 1 {
            lemma_ascii_byte_prefix(s.drop_first(), n - 1);
        }
        assert(byte_prefix(s, n) =~= s.take(if n < s.len() {
            n
        } else {
            s.len() as int
        }));
    }
}

/// An ASCII text can be cut after any number of bytes.
pub proof fn lemma_ascii_cuts_cleanly(s: Seq<char>, n: int)
    requires
        all_ascii(s),
        n >= 0,
    ensures
        cuts_cleanly(s, n),
{
    lemma_ascii_utf8_len(s);
    lemma_ascii_byte_prefix(s, n);
    if n < s.len() {
        let t = s.take(n);
        assert(all_ascii(t));
        lemma_ascii_utf8_len(t);
    }
}

proof fn lemma_user_ascii()
    ensures
        all_ascii("user"@),
{
    reveal_strlit("user");
}

proof fn lemma_initials_ascii(ws: Seq<Seq<char>>)
    ensures
        all_ascii(initials(ws)),
    decreases ws.len(),
{
    if ws.len() > 0 {
        lemma_initials_ascii(ws.drop_last());
        lemma_initial_ascii(ws.last());
        assert(all_ascii(initials(ws))) by {
            let a = initials(ws.drop_last());
            let b = initial(ws.last());
            assert forall|i: int| 0 <= i < (a + b).len() implies #[trigger] spec_is_ascii(
                (a + b)[i],
            ) by {
                if i < a.len() {
                    assert(spec_is_ascii(a[i]));
                } else {
                    assert(spec_is_ascii(b[i - a.len()]));
                }
            }
        }
    }
}

proof fn lemma_initial_ascii(w: Seq<char>)
    ensures
        all_ascii(initial(w)),
    decreases w.len(),
{
    if w.len() > 0 && !spec_is_ascii_alphabetic(w[0]) {
        lemma_initial_ascii(w.drop_first());
    }
}

proof fn lemma_non_empty_pieces(ws: Seq<Seq<char>>)
    requires
        forall|k: int| 0 <= k < ws.len() ==> is_name_piece(#[trigger] ws[k]),
    ensures
        forall|k: int|
            0 <= k < non_empty(ws).len() ==> is_name_piece(#[trigger] non_empty(ws)[k]),
    decreases ws.len(),
{
    if ws.len() > 0 {
        assert forall|k: int| 0 <= k < ws.drop_last().len() implies is_name_piece(
            #[trigger] ws.drop_last()[k],
        ) by {
            assert(ws.drop_last()[k] == ws[k]);
        }
        lemma_non_empty_pieces(ws.drop_last());
        assert(is_name_piece(ws[ws.len() - 1]));
        let rest = non_empty(ws.drop_last());
        if ws.last().len() > 0 {
            assert forall|k: int| 0 <= k < non_empty(ws).len() implies is_name_piece(
                #[trigger] non_empty(ws)[k],
            ) by {
                if k < rest.len() {
                    assert(non_empty(ws)[k] == rest[k]);
                } else {
                    assert(non_empty(ws)[k] == ws.last());
                }
            }
        }
    }
}

/// Every login name base is ASCII.
pub proof fn lemma_base_ascii(ts: Seq<Seq<char>>)
    ensures
        all_ascii(base_of_transliterations(ts)),
{
    let normals = ts.map_values(|t: Seq<char>| normalized(t));
    assert forall|k: int| 0 <= k < normals.len() implies is_name_piece(#[trigger] normals[k]) by {
        lemma_normalized_piece(ts[k]);
    }
    lemma_non_empty_pieces(normals);
    let ws = non_empty(normals);
    reveal_strlit("user");
    let joined = if ws.len() == 0 {
        "user"@
    } else {
        ws[0] + initials(ws.drop_first())
    };
    if ws.len() > 0 {
        lemma_initials_ascii(ws.drop_first());
        assert(is_name_piece(ws[0]));
        assert forall|i: int| 0 <= i < joined.len() implies #[trigger] spec_is_ascii(joined[i]) by {
            if i < ws[0].len() {
                assert(spec_is_ascii_lowercase(ws[0][i]) || ('0' <= ws[0][i] && ws[0][i] <= '9'));
            } else {
                assert(spec_is_ascii(initials(ws.drop_first())[i - ws[0].len()]));
            }
        }
    }
    let named = if joined.len() > 0 && spec_is_ascii_lowercase(joined[0]) {
        joined
    } else {
        "user"@ + joined
    };
    assert forall|i: int| 0 <= i < named.len() implies #[trigger] spec_is_ascii(named[i]) by {
        if !(joined.len() > 0 && spec_is_ascii_lowercase(joined[0])) {
            if i < 4 {
                assert(spec_is_ascii("user"@[i]));
            } else {
                assert(spec_is_ascii(joined[i - 4]));
            }
        }
    }
}

/// Whether setup treats `name` as taken, given that `user_exists` answered
/// `taken`: the temporary setup account is always taken, any other name as
/// `user_exists` answered for it.
pub open spec fn login_taken<G: Fn(&str) -> bool>(user_exists: &G, name: Seq<char>, taken: bool) -> bool {
    if name == TEMPORARY_USER@ {
        taken
    } else {
        answered(user_exists, name, taken)
    }
}

/// `first_available`, where a candidate counts as taken when it is the
/// setup account or `user_exists` called it taken.
pub open spec fn first_free_login<G: Fn(&str) -> bool>(
    user_exists: &G,
    base: Seq<char>,
    r: Option<Seq<char>>,
) -> bool {
    match r {
        Some(name) => exists|k: nat|
            #![trigger candidate(base, k)]
            k < candidate_count() && name == candidate(base, k) && login_taken(
                user_exists,
                candidate(base, k),
                false,
            ) && forall|j: nat|
                j < k ==> #[trigger] login_taken(user_exists, candidate(base, j), true),
        None => forall|j: nat|
            j < candidate_count() ==> #[trigger] login_taken(
                user_exists,
                candidate(base, j),
                true,
            ),
    }
}

/// The hidden login name for a display name: its login name base, else
/// the first numbered variant that is neither the setup account nor, as
/// `user_exists` answers, an existing account.
pub fn generated_username<F: Fn(&str) -> Option<String>, G: Fn(&str) -> bool>(
    display_name: &str,
    transliterate_with_icu: &F,
    user_exists: &G,
) -> (r: Option<String>)
    requires
        forall|w: &str| call_requires(*transliterate_with_icu, (w,)),
        forall|w: &str| call_requires(*user_exists, (w,)),
    ensures
        exists|base: Seq<char>|
            #![trigger is_username_base_of(transliterate_with_icu, display_name@, base)]
            is_username_base_of(transliterate_with_icu, display_name@, base) && first_free_login(
                user_exists,
                base,
                match r {
                    Some(name) => Some(name@),
                    None => None,
                },
            ),
        r matches Some(name) ==> username_problem(name@) is None,
{
    let base = username_base_from_display_name(display_name, transliterate_with_icu);
    proof {
        let ts = choose|ts: Seq<Seq<char>>|
            transliterates_words(transliterate_with_icu, words(display_name@), ts) && base@
                == base_of_transliterations(ts);
        lemma_base_ascii(ts);
        assert forall|k: nat| k < candidate_count() implies #[trigger] cuts_cleanly(
            stem_source(base@),
            kept_bytes(k),
        ) by {
            lemma_user_ascii();
            lemma_ascii_cuts_cleanly(stem_source(base@), kept_bytes(k));
        }
    }
    let is_unavailable = |candidate: &str| -> (taken: bool)
        requires
            call_requires(user_exists, (candidate,)),
        ensures
            candidate@ == TEMPORARY_USER@ ==> taken,
            candidate@ != TEMPORARY_USER@ ==> call_ensures(user_exists, (candidate,), taken),
        { str_eq(candidate, TEMPORARY_USER) || user_exists(candidate) };
    let r = unique_username_from_base(base.as_str(), &is_unavailable);
    proof {
        assert forall|name: Seq<char>, taken: bool|
            #[trigger] answered(&is_unavailable, name, taken) implies login_taken(
            user_exists,
            name,
            taken,
        ) by {
            let s = choose|s: &str| s@ == name && call_ensures(is_unavailable, (s,), taken);
            if name != TEMPORARY_USER@ {
                assert(call_ensures(*user_exists, (s,), taken));
                assert(answered(user_exists, name, taken));
            }
        }
        match &r {
            Some(name) => {
                let k = choose|k: nat|
                    k < candidate_count() && name@ == candidate(base@, k) && answered(
                        &is_unavailable,
                        candidate(base@, k),
                        false,
                    ) && forall|j: nat|
                        j < k ==> #[trigger] answered(&is_unavailable, candidate(base@, j), true);
                assert(login_taken(user_exists, candidate(base@, k), false));
                assert forall|j: nat| j < k implies #[trigger] login_taken(
                    user_exists,
                    candidate(base@, j),
                    true,
                ) by {
                    assert(answered(&is_unavailable, candidate(base@, j), true));
                }
                assert(first_free_login(user_exists, base@, Some(name@)));
                let ts = choose|ts: Seq<Seq<char>>|
                    transliterates_words(transliterate_with_icu, words(display_name@), ts)
                        && base@ == base_of_transliterations(ts);
                lemma_base_is_login_base(ts);
                lemma_candidate_is_valid_login(base@, k);
            },
            None => {
                assert forall|j: nat| j < candidate_count() implies #[trigger] login_taken(
                    user_exists,
                    candidate(base@, j),
                    true,
                ) by {
                    assert(answered(&is_unavailable, candidate(base@, j), true));
                }
            },
        }
    }
    r
}

/// A login name base: 1 to 32 lowercase ASCII letters and digits, starting
/// with a letter.
pub open spec fn is_login_base(b: Seq<char>) -> bool {
    &&& 0 < b.len() <= 32
    &&& spec_is_ascii_lowercase(b[0])
    &&& is_name_piece(b)
}

proof fn lemma_initial_lowercase(w: Seq<char>)
    requires
        is_name_piece(w),
    ensures
        is_name_piece(initial(w)),
    decreases w.len(),
{
    if w.len() > 0 && !spec_is_ascii_alphabetic(w[0]) {
        assert forall|i: int| 0 <= i < w.drop_first().len() implies (spec_is_ascii_lowercase(
            #[trigger] w.drop_first()[i],
        ) || ('0' <= w.drop_first()[i] && w.drop_first()[i] <= '9')) by {
            assert(w.drop_first()[i] == w[i + 1]);
        }
        lemma_initial_lowercase(w.drop_first());
    }
}

proof fn lemma_initials_lowercase(ws: Seq<Seq<char>>)
    requires
        forall|k: int| 0 <= k < ws.len() ==> is_name_piece(#[trigger] ws[k]),
    ensures
        is_name_piece(initials(ws)),
    decreases ws.len(),
{
    if ws.len() > 0 {
        assert forall|k: int| 0 <= k < ws.drop_last().len() implies is_name_piece(
            #[trigger] ws.drop_last()[k],
        ) by {
            assert(ws.drop_last()[k] == ws[k]);
        }
        lemma_initials_lowercase(ws.drop_last());
        assert(is_name_piece(ws[ws.len() - 1]));
        lemma_initial_lowercase(ws.last());
        let a = initials(ws.drop_last());
        let b = initial(ws.last());
        assert forall|i: int| 0 <= i < (a + b).len() implies (spec_is_ascii_lowercase(
            #[trigger] (a + b)[i],
        ) || ('0' <= (a + b)[i] && (a + b)[i] <= '9')) by {
            if i < a.len() {
                assert((a + b)[i] == a[i]);
            } else {
                assert((a + b)[i] == b[i - a.len()]);
            }
        }
    }
}

/// Every login name base that setup derives is 1 to 32 lowercase ASCII
/// letters and digits starting with a letter.
pub proof fn lemma_base_is_login_base(ts: Seq<Seq<char>>)
    ensures
        is_login_base(base_of_transliterations(ts)),
{
    reveal_strlit("user");
    let normals = ts.map_values(|t: Seq<char>| normalized(t));
    assert forall|k: int| 0 <= k < normals.len() implies is_name_piece(#[trigger] normals[k]) by {
        lemma_normalized_piece(ts[k]);
    }
    lemma_non_empty_pieces(normals);
    let ws = non_empty(normals);
    let joined = if ws.len() == 0 {
        "user"@
    } else {
        ws[0] + initials(ws.drop_first())
    };
    if ws.len() > 0 {
        assert forall|k: int| 0 <= k < ws.drop_first().len() implies is_name_piece(
            #[trigger] ws.drop_first()[k],
        ) by {
            assert(ws.drop_first()[k] == ws[k + 1]);
        }
        lemma_initials_lowercase(ws.drop_first());
        assert(is_name_piece(ws[0]));
        let a = ws[0];
        let b = initials(ws.drop_first());
        assert forall|i: int| 0 <= i < joined.len() implies (spec_is_ascii_lowercase(
            #[trigger] joined[i],
        ) || ('0' <= joined[i] && joined[i] <= '9')) by {
            if i < a.len() {
                assert(joined[i] == a[i]);
            } else {
                assert(joined[i] == b[i - a.len()]);
            }
        }
    } else {
        assert(is_name_piece(joined));
    }
    let named = if joined.len() > 0 && spec_is_ascii_lowercase(joined[0]) {
        joined
    } else {
        "user"@ + joined
    };
    assert(is_name_piece(named)) by {
        if !(joined.len() > 0 && spec_is_ascii_lowercase(joined[0])) {
            assert forall|i: int| 0 <= i < named.len() implies (spec_is_ascii_lowercase(
                #[trigger] named[i],
            ) || ('0' <= named[i] && named[i] <= '9')) by {
                if i >= 4 {
                    assert(named[i] == joined[i - 4]);
                }
            }
        }
    }
    let b = base_of_transliterations(ts);
    assert(b[0] == named[0]);
    assert forall|i: int| 0 <= i < b.len() implies (spec_is_ascii_lowercase(#[trigger] b[i]) || (
    '0' <= b[i] && b[i] <= '9')) by {
        assert(b[i] == named[i]);
    }
}

/// Ten to the power `k`.
pub open spec fn pow10(k: nat) -> nat
    decreases k,
{
    if k == 0 {
        1
    } else {
        10 * pow10((k - 1) as nat)
    }
}

/// The decimal text of a number is one or more digits, at most `k` where
/// the number is below `10^k`.
pub proof fn lemma_decimal_shape(n: nat, k: nat)
    requires
        1 <= k,
        n < pow10(k),
    ensures
        1 <= decimal(n).len() <= k,
        forall|i: int| 0 <= i < decimal(n).len() ==> #[trigger] spec_is_ascii_digit(decimal(n)[i]),
    decreases n,
{
    if n >= 10 {
        assert(k >= 2) by {
            if k == 1 {
                assert(pow10(1) == 10 * pow10(0));
            }
        }
        assert(pow10(k) == 10 * pow10((k - 1) as nat));
        lemma_decimal_shape(n / 10, (k - 1) as nat);
        let d = decimal(n / 10);
        assert forall|i: int| 0 <= i < decimal(n).len() implies #[trigger] spec_is_ascii_digit(
            decimal(n)[i],
        ) by {
            if i < d.len() {
                assert(decimal(n)[i] == d[i]);
            } else {
                assert(decimal(n)[i] == digit_char(n % 10));
            }
        }
    }
}

/// Every candidate for a login name base is a valid login name, but for
/// the base itself where it is the setup account's name.
pub proof fn lemma_candidate_is_valid_login(base: Seq<char>, k: nat)
    requires
        is_login_base(base),
        k < candidate_count(),
    ensures
        username_problem(candidate(base, k)) is None || (k == 0 && candidate(base, k)
            == TEMPORARY_USER@),
{
    let c = candidate(base, k);
    assert(stem_source(base) == base);
    assert(all_ascii(base)) by {
        assert forall|i: int| 0 <= i < base.len() implies #[trigger] spec_is_ascii(base[i]) by {
            assert(spec_is_ascii_lowercase(base[i]) || ('0' <= base[i] && base[i] <= '9'));
        }
    }
    assert(pow10(10) == 10000000000) by {
        reveal_with_fuel(pow10, 11);
    }
    let digits = decimal(k + 1);
    if k > 0 {
        lemma_decimal_shape(k + 1, 10);
    }
    let keep = kept_bytes(k);
    assert(keep >= 22);
    lemma_ascii_byte_prefix(base, keep);
    let stem = byte_prefix(base, keep);
    assert(stem.len() >= 1 && stem[0] == base[0]);
    assert(c.len() <= 32);
    assert forall|i: int| 0 <= i < c.len() implies (spec_is_ascii_lowercase(#[trigger] c[i]) || (
    '0' <= c[i] && c[i] <= '9')) by {
        if i < stem.len() {
            assert(c[i] == base[i]);
        } else {
            assert(c[i] == digits[i - stem.len()]);
            assert(spec_is_ascii_digit(digits[i - stem.len()]));
        }
    }
    assert(all_ascii(c)) by {
        assert forall|i: int| 0 <= i < c.len() implies #[trigger] spec_is_ascii(c[i]) by {
            assert(spec_is_ascii_lowercase(c[i]) || ('0' <= c[i] && c[i] <= '9'));
        }
    }
    lemma_ascii_utf8_len(c);
    assert(!has_whitespace(c)) by {
        if has_whitespace(c) {
            let i = choose|i: int| 0 <= i < c.len() && #[trigger] spec_is_whitespace(c[i]);
            assert(spec_is_ascii_lowercase(c[i]) || ('0' <= c[i] && c[i] <= '9'));
        }
    }
    assert(c[0] == base[0]);
    assert(spec_is_ascii_lowercase(c[c.len() - 1]) || ('0' <= c[c.len() - 1] && c[c.len() - 1]
        <= '9'));
    assert(!(exists|i: int| 0 <= i < c.len() && !is_login_char(#[trigger] c[i]))) by {
        assert forall|i: int| 0 <= i < c.len() implies is_login_char(#[trigger] c[i]) by {
            assert(spec_is_ascii_lowercase(c[i]) || ('0' <= c[i] && c[i] <= '9'));
        }
    }
    assert(!(exists|i: int| 0 <= i < c.len() && spec_is_ascii_uppercase(#[trigger] c[i]))) by {
        assert forall|i: int| 0 <= i < c.len() implies !spec_is_ascii_uppercase(#[trigger] c[i]) by {
            assert(spec_is_ascii_lowercase(c[i]) || ('0' <= c[i] && c[i] <= '9'));
        }
    }
    assert(!spec_is_ascii_digit(c[0]));
    if k > 0 {
        reveal_strlit("fluffsetup");
        assert(spec_is_ascii_digit(c[c.len() - 1])) by {
            assert(c[c.len() - 1] == digits[digits.len() - 1]);
        }
        assert(c != TEMPORARY_USER@) by {
            if c == TEMPORARY_USER@ {
                assert(TEMPORARY_USER@[9] == 'p');
            }
        }
    }
}

} // verus!
