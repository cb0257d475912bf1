//! Turning the words of a display name into ASCII: the spellings that setup
//! presents for some common Hebrew names, and the table that stands in when
//! ICU cannot transliterate.

use vstd::prelude::*;
use vstd::string::*;
use crate::text::{
    chars_of, is_ascii, push_char, spec_is_ascii, str_eq, string_from,
};

verus! {

/// What the built-in table makes of `c`: Latin letters with diacritics
/// lose them, Hebrew letters become their usual Latin spelling, any other
/// ASCII character stays and any other character is dropped.
pub open spec fn fallback_of(c: char) -> Seq<char> {
    if c == 'À' || c == 'Á' || c == 'Â' || c == 'Ã' || c == 'Ä' || c == 'Å' || c == 'à' || c
        == 'á' || c == 'â' || c == 'ã' || c == 'ä' || c == 'å' {
        "a"@
    } else if c == 'Æ' || c == 'æ' {
        "ae"@
    } else if c == 'Ç' || c == 'ç' {
        "c"@
    } else if c == 'Ð' || c == 'ð' {
        "d"@
    } else if c == 'È' || c == 'É' || c == 'Ê' || c == 'Ë' || c == 'è' || c == 'é' || c == 'ê'
        || c == 'ë' {
        "e"@
    } else if c == 'Ì' || c == 'Í' || c == 'Î' || c == 'Ï' || c == 'ì' || c == 'í' || c == 'î'
        || c == 'ï' {
        "i"@
    } else if c == 'Ñ' || c == 'ñ' {
        "n"@
    } else if c == 'Ò' || c == 'Ó' || c == 'Ô' || c == 'Õ' || c == 'Ö' || c == 'Ø' || c == 'ò'
        || c == 'ó' || c == 'ô' || c == 'õ' || c == 'ö' || c == 'ø' {
        "o"@
    } else if c == 'Œ' || c == 'œ' {
        "oe"@
    } else if c == 'Š' || c == 'š' {
        "s"@
    } else if c == 'Ù' || c == 'Ú' || c == 'Û' || c == 'Ü' || c == 'ù' || c == 'ú' || c == 'û'
        || c == 'ü' {
        "u"@
    } else if c == 'Ý' || c == 'Ÿ' || c == 'ý' || c == 'ÿ' {
        "y"@
    } else if c == 'Ž' || c == 'ž' {
        "z"@
    } else if c == 'א' {
        "a"@
    } else if c == 'ב' {
        "b"@
    } else if c == 'ג' {
        "g"@
    } else if c == 'ד' {
        "d"@
    } else if c == 'ה' {
        "h"@
    } else if c == 'ו' {
        "o"@
    } else if c == 'ז' {
        "z"@
    } else if c == 'ח' {
        "h"@
    } else if c == 'ט' {
        "t"@
    } else if c == 'י' {
        "y"@
    } else if c == 'כ' || c == 'ך' {
        "k"@
    } else if c == 'ל' {
        "l"@
    } else if c == 'מ' || c == 'ם' {
        "m"@
    } else if c == 'נ' || c == 'ן' {
        "n"@
    } else if c == 'ס' {
        "s"@
    } else if c == 'ע' {
        "a"@
    } else if c == 'פ' || c == 'ף' {
        "f"@
    } else if c == 'צ' || c == 'ץ' {
        "ts"@
    } else if c == 'ק' {
        "k"@
    } else if c == 'ר' {
        "r"@
    } else if c == 'ש' {
        "sh"@
    } else if c == 'ת' {
        "t"@
    } else if spec_is_ascii(c) {
        seq![c]
    } else {
        seq![]
    }
}

/// The table applied to every character of `s`, the pieces joined in order.
pub open spec fn fallback_transliterated(s: Seq<char>) -> Seq<char>
    decreases s.len(),
{
    if s.len() == 0 {
        seq![]
    } else {
        fallback_transliterated(s.drop_last()) + fallback_of(s.last())
    }
}

fn push_fallback(out: &mut String, c: char)
    ensures
        final(out)@ == old(out)@ + fallback_of(c),
{
    if c == 'À' || c == 'Á' || c == 'Â' || c == 'Ã' || c == 'Ä' || c == 'Å' || c == 'à' || c
        == 'á' || c == 'â' || c == 'ã' || c == 'ä' || c == 'å' {
        out.append("a");
    } else if c == 'Æ' || c == 'æ' {
        out.append("ae");
    } else if c == 'Ç' || c == 'ç' {
        out.append("c");
    } else if c == 'Ð' || c == 'ð' {
        out.append("d");
    } else if c == 'È' || c == 'É' || c == 'Ê' || c == 'Ë' || c == 'è' || c == 'é' || c == 'ê'
        || c == 'ë' {
        out.append("e");
    } else if c == 'Ì' || c == 'Í' || c == 'Î' || c == 'Ï' || c == 'ì' || c == 'í' || c == 'î'
        || c == 'ï' {
        out.append("i");
    } else if c == 'Ñ' || c == 'ñ' {
        out.append("n");
    } else if c == 'Ò' || c == 'Ó' || c == 'Ô' || c == 'Õ' || c == 'Ö' || c == 'Ø' || c == 'ò'
        || c == 'ó' || c == 'ô' || c == 'õ' || c == 'ö' || c == 'ø' {
        out.append("o");
    } else if c == 'Œ' || c == 'œ' {
        out.append("oe");
    } else if c == 'Š' || c == 'š' {
        out.append("s");
    } else if c == 'Ù' || c == 'Ú' || c == 'Û' || c == 'Ü' || c == 'ù' || c == 'ú' || c == 'û'
        || c == 'ü' {
        out.append("u");
    } else if c == 'Ý' || c == 'Ÿ' || c == 'ý' || c == 'ÿ' {
        out.append("y");
    } else if c == 'Ž' || c == 'ž' {
        out.append("z");
    } else if c == 'א' {
        out.append("a");
    } else if c == 'ב' {
        out.append("b");
    } else if c == 'ג' {
        out.append("g");
    } else if c == 'ד' {
        out.append("d");
    } else if c == 'ה' {
        out.append("h");
    } else if c == 'ו' {
        out.append("o");
    } else if c == 'ז' {
        out.append("z");
    } else if c == 'ח' {
        out.append("h");
    } else if c == 'ט' {
        out.append("t");
    } else if c == 'י' {
        out.append("y");
    } else if c == 'כ' || c == 'ך' {
        out.append("k");
    } else if c == 'ל' {
        out.append("l");
    } else if c == 'מ' || c == 'ם' {
        out.append("m");
    } else if c == 'נ' || c == 'ן' {
        out.append("n");
    } else if c == 'ס' {
        out.append("s");
    } else if c == 'ע' {
        out.append("a");
    } else if c == 'פ' || c == 'ף' {
        out.append("f");
    } else if c == 'צ' || c == 'ץ' {
        out.append("ts");
    } else if c == 'ק' {
        out.append("k");
    } else if c == 'ר' {
        out.append("r");
    } else if c == 'ש' {
        out.append("sh");
    } else if c == 'ת' {
        out.append("t");
    } else if is_ascii(c) {
        push_char(out, c);
    } else {
        assert(old(out)@ + fallback_of(c) =~= old(out)@);
    }
}

/// The table works character by character: the transliteration of two
/// pieces joined is the two transliterations joined.
pub proof fn lemma_fallback_concat(x: Seq<char>, y: Seq<char>)
    ensures
        fallback_transliterated(x + y) == fallback_transliterated(x) + fallback_transliterated(y),
    decreases y.len(),
{
    if y.len() == 0 {
        assert(x + y =~= x);
    } else {
        lemma_fallback_concat(x, y.drop_last());
        assert((x + y).drop_last() =~= x + y.drop_last());
        assert((x + y).last() == y.last());
    }
}

/// The built-in table keeps the base letter of every Latin letter with a
/// diacritic that it knows, in whatever word it stands: such a letter
/// becomes its base letter (`ae`, `oe` for the ligatures), lowercase, and
/// the rest of the word is transliterated around it unchanged.
pub proof fn lemma_fallback_keeps_base_letters(x: Seq<char>, c: char, y: Seq<char>)
    ensures
        ('À' <= c && c <= 'Å') || ('à' <= c && c <= 'å') ==> fallback_transliterated(
            x + seq![c] + y,
        ) == fallback_transliterated(x) + "a"@ + fallback_transliterated(y),
        c == 'Æ' || c == 'æ' ==> fallback_transliterated(x + seq![c] + y)
            == fallback_transliterated(x) + "ae"@ + fallback_transliterated(y),
        c == 'Ç' || c == 'ç' ==> fallback_transliterated(x + seq![c] + y)
            == fallback_transliterated(x) + "c"@ + fallback_transliterated(y),
        c == 'Ð' || c == 'ð' ==> fallback_transliterated(x + seq![c] + y)
            == fallback_transliterated(x) + "d"@ + fallback_transliterated(y),
        ('È' <= c && c <= 'Ë') || ('è' <= c && c <= 'ë') ==> fallback_transliterated(
            x + seq![c] + y,
        ) == fallback_transliterated(x) + "e"@ + fallback_transliterated(y),
        ('Ì' <= c && c <= 'Ï') || ('ì' <= c && c <= 'ï') ==> fallback_transliterated(
            x + seq![c] + y,
        ) == fallback_transliterated(x) + "i"@ + fallback_transliterated(y),
        c == 'Ñ' || c == 'ñ' ==> fallback_transliterated(x + seq![c] + y)
            == fallback_transliterated(x) + "n"@ + fallback_transliterated(y),
        ('Ò' <= c && c <= 'Ö') || ('ò' <= c && c <= 'ö') || c == 'Ø' || c == 'ø'
            ==> fallback_transliterated(x + seq![c] + y) == fallback_transliterated(x) + "o"@
            + fallback_transliterated(y),
        c == 'Œ' || c == 'œ' ==> fallback_transliterated(x + seq![c] + y)
            == fallback_transliterated(x) + "oe"@ + fallback_transliterated(y),
        c == 'Š' || c == 'š' ==> fallback_transliterated(x + seq![c] + y)
            == fallback_transliterated(x) + "s"@ + fallback_transliterated(y),
        ('Ù' <= c && c <= 'Ü') || ('ù' <= c && c <= 'ü') ==> fallback_transliterated(
            x + seq![c] + y,
        ) == fallback_transliterated(x) + "u"@ + fallback_transliterated(y),
        c == 'Ý' || c == 'ý' || c == 'ÿ' || c == 'Ÿ' ==> fallback_transliterated(
            x + seq![c] + y,
        ) == fallback_transliterated(x) + "y"@ + fallback_transliterated(y),
        c == 'Ž' || c == 'ž' ==> fallback_transliterated(x + seq![c] + y)
            == fallback_transliterated(x) + "z"@ + fallback_transliterated(y),
{
    lemma_fallback_concat(x + seq![c], y);
    lemma_fallback_concat(x, seq![c]);
    assert(seq![c].drop_last() =~= Seq::<char>::empty());
    assert(seq![c].last() == c);
    assert(fallback_transliterated(Seq::<char>::empty()) == Seq::<char>::empty());
    assert(Seq::<char>::empty() + fallback_of(c) =~= fallback_of(c));
    assert(fallback_transliterated(seq![c]) == fallback_of(c));
}

/// The built-in transliteration of `value`, used where ICU gives nothing.
pub fn fallback_transliteration(value: &str) -> (r: String)
    ensures
        r@ == fallback_transliterated(value@),
{
    let chars = chars_of(value);
    let mut result = String::new();
    let mut i: usize = 0;
    assert(chars@.take(0) =~= Seq::<char>::empty());
    while i < chars.len()
        invariant
            i <= chars@.len(),
            result@ == fallback_transliterated(chars@.take(i as int)),
        decreases chars.len() - i,
    {
        assert(chars@.take(i + 1).drop_last() =~= chars@.take(i as int));
        push_fallback(&mut result, chars[i]);
        i = i + 1;
    }
    assert(chars@.take(chars@.len() as int) =~= chars@);
    result
}

/// The spellings that setup presents for some common Hebrew names, whatever
/// ICU would make of them.
pub open spec fn preset_spelling(word: Seq<char>) -> Option<Seq<char>> {
    if word == "יעקוב"@ || word == "יעקב"@ {
        Some("yakov"@)
    } else if word == "כהן"@ {
        Some("cohen"@)
    } else {
        None
    }
}

/// Whether `icu`, called on a text that reads `word`, gave `out`.
pub open spec fn icu_gave<F: Fn(&str) -> Option<String>>(
    icu: &F,
    word: Seq<char>,
    out: Option<String>,
) -> bool {
    exists|w: &str| w@ == word && call_ensures(*icu, (w,), out)
}

/// Whether `t` is a transliteration of `word` that setup can arrive at: the
/// preset spelling where there is one, else what ICU gave, or the built-in
/// table where ICU gave nothing.
pub open spec fn is_transliteration<F: Fn(&str) -> Option<String>>(
    icu: &F,
    word: Seq<char>,
    t: Seq<char>,
) -> bool {
    match preset_spelling(word) {
        Some(p) => t == p,
        None => exists|out: Option<String>|
            #![trigger icu_gave(icu, word, out)]
            icu_gave(icu, word, out) && t == match out {
                Some(x) => x@,
                None => fallback_transliterated(word),
            },
    }
}

/// Transliterates one word of a display name: the preset spelling where
/// there is one; otherwise `transliterate_with_icu`, which runs ICU and gives
/// `None` where that fails, and the built-in table where it does.
pub fn transliterate_word<F: Fn(&str) -> Option<String>>(
    word: &str,
    transliterate_with_icu: &F,
) -> (t: String)
    requires
        forall|w: &str| call_requires(*transliterate_with_icu, (w,)),
    ensures
        is_transliteration(transliterate_with_icu, word@, t@),
{
    if str_eq(word, "יעקוב") || str_eq(word, "יעקב") {
        return string_from("yakov");
    }
    if str_eq(word, "כהן") {
        return string_from("cohen");
    }
    let out = transliterate_with_icu(word);
    assert(icu_gave(transliterate_with_icu, word@, out));
    match out {
        Some(t) => t,
        None => fallback_transliteration(word),
    }
}

} // verus!
