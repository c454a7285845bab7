//! Case conversions offered through a property's `x-casing` list.

use vstd::prelude::*;

use crate::text::{ascii_lower, ascii_upper, is_white_space, push_char, same_text,
    to_ascii_lower, to_ascii_upper, white_space};

verus! {

/// The casing names that a schema may list, in the order they are offered.
pub open spec fn casing_names() -> Seq<Seq<char>> {
    seq!["camelCase"@, "PascalCase"@, "snake_case"@, "kebab-case"@, "UPPER_CASE"@]
}

/// Characters that end a word for camelCase and PascalCase: white space,
/// `_` and `-`.
pub open spec fn is_word_break(c: char) -> bool {
    is_white_space(c) || c == '_' || c == '-'
}

/// Scans `s` left to right: word breaks are dropped and set the
/// capitalisation flag; any other character is written upper case when the
/// flag is set (which clears it) and lower case otherwise.  Gives the text
/// written and the flag at the end.
pub open spec fn capitalize_words(s: Seq<char>, capitalize_first: bool) -> (Seq<char>, bool)
    decreases s.len(),
{
    if s.len() == 0 {
        (Seq::empty(), capitalize_first)
    } else {
        let (out, cap) = capitalize_words(s.drop_last(), capitalize_first);
        let c = s.last();
        if is_word_break(c) {
            (out, true)
        } else if cap {
            (out.push(ascii_upper(c)), false)
        } else {
            (out.push(ascii_lower(c)), false)
        }
    }
}

/// `camelCase`: words joined, each after the first capitalised.
pub open spec fn camel_case(s: Seq<char>) -> Seq<char> {
    capitalize_words(s, false).0
}

/// `PascalCase`: words joined, each capitalised.
pub open spec fn pascal_case(s: Seq<char>) -> Seq<char> {
    capitalize_words(s, true).0
}

/// Each character replaced by `to` when it is `a` or `b`, then mapped to
/// ASCII upper case (`upper`) or lower case.
pub open spec fn replace_and_case(s: Seq<char>, a: char, b: char, to: char, upper: bool) -> Seq<
    char,
> {
    Seq::new(
        s.len(),
        |i: int|
            {
                let c = if s[i] == a || s[i] == b {
                    to
                } else {
                    s[i]
                };
                if upper {
                    ascii_upper(c)
                } else {
                    ascii_lower(c)
                }
            },
    )
}

/// `snake_case`: spaces and `-` become `_`, ASCII letters lower case.
pub open spec fn snake_case(s: Seq<char>) -> Seq<char> {
    replace_and_case(s, ' ', '-', '_', false)
}

/// `kebab-case`: spaces and `_` become `-`, ASCII letters lower case.
pub open spec fn kebab_case(s: Seq<char>) -> Seq<char> {
    replace_and_case(s, ' ', '_', '-', false)
}

/// `UPPER_CASE`: spaces and `-` become `_`, ASCII letters upper case.
pub open spec fn upper_case(s: Seq<char>) -> Seq<char> {
    replace_and_case(s, ' ', '-', '_', true)
}

/// `s` converted to the casing named `case`; an unknown name leaves `s` as
/// it is.
pub open spec fn cased(s: Seq<char>, case: Seq<char>) -> Seq<char> {
    if case == "camelCase"@ {
        camel_case(s)
    } else if case == "PascalCase"@ {
        pascal_case(s)
    } else if case == "snake_case"@ {
        snake_case(s)
    } else if case == "kebab-case"@ {
        kebab_case(s)
    } else if case == "UPPER_CASE"@ {
        upper_case(s)
    } else {
        s
    }
}


/// ASCII case mapping changes letters into letters and leaves every other
/// character alone, so it never creates or removes one of the separators.
proof fn lemma_ascii_case_facts(c: char)
    ensures
        ascii_upper(c) == c || ('A' <= ascii_upper(c) <= 'Z' && 'a' <= c <= 'z'),
        ascii_lower(c) == c || ('a' <= ascii_lower(c) <= 'z' && 'A' <= c <= 'Z'),
        ascii_upper(ascii_upper(c)) == ascii_upper(c),
        ascii_lower(ascii_lower(c)) == ascii_lower(c),
        !('a' <= ascii_upper(c) <= 'z'),
        !('A' <= ascii_lower(c) <= 'Z'),
{
}

/// ASCII case mapping moves only the letters `a`..`z` / `A`..`Z`, by 32 code
/// points, and leaves every other character as it is.
pub proof fn law_ascii_case_mapping(c: char)
    ensures
        ('a' <= c <= 'z') ==> ascii_upper(c) as int == c as int - 32,
        !('a' <= c <= 'z') ==> ascii_upper(c) == c,
        ('A' <= c <= 'Z') ==> ascii_lower(c) as int == c as int + 32,
        !('A' <= c <= 'Z') ==> ascii_lower(c) == c,
{
}

/// Character by character: snake_case writes `_` for a space or `-` and
/// lowers ASCII capitals; kebab-case writes `-` for a space or `_` and lowers
/// ASCII capitals; UPPER_CASE writes `_` for a space or `-` and raises ASCII
/// small letters.  Every other character is kept.
pub proof fn law_replacing_casings_per_character(s: Seq<char>)
    ensures
        forall|i: int|
            0 <= i < s.len() ==> {
                let c = s[i];
                let out = #[trigger] snake_case(s)[i];
                if c == ' ' || c == '-' {
                    out == '_'
                } else if 'A' <= c <= 'Z' {
                    out as int == c as int + 32
                } else {
                    out == c
                }
            },
        forall|i: int|
            0 <= i < s.len() ==> {
                let c = s[i];
                let out = #[trigger] kebab_case(s)[i];
                if c == ' ' || c == '_' {
                    out == '-'
                } else if 'A' <= c <= 'Z' {
                    out as int == c as int + 32
                } else {
                    out == c
                }
            },
        forall|i: int|
            0 <= i < s.len() ==> {
                let c = s[i];
                let out = #[trigger] upper_case(s)[i];
                if c == ' ' || c == '-' {
                    out == '_'
                } else if 'a' <= c <= 'z' {
                    out as int == c as int - 32
                } else {
                    out == c
                }
            },
{
}

/// snake_case, kebab-case and UPPER_CASE keep the number of characters.
pub proof fn law_replacing_casings_keep_length(s: Seq<char>)
    ensures
        snake_case(s).len() == s.len(),
        kebab_case(s).len() == s.len(),
        upper_case(s).len() == s.len(),
{
}

proof fn lemma_replace_and_case_idempotent(s: Seq<char>, a: char, b: char, to: char, upper: bool)
    requires
        to != a,
        to != b,
        !('a' <= a <= 'z') && !('A' <= a <= 'Z'),
        !('a' <= b <= 'z') && !('A' <= b <= 'Z'),
        !('a' <= to <= 'z') && !('A' <= to <= 'Z'),
    ensures
        replace_and_case(replace_and_case(s, a, b, to, upper), a, b, to, upper)
            == replace_and_case(s, a, b, to, upper),
{
    let t = replace_and_case(s, a, b, to, upper);
    assert forall|i: int| 0 <= i < s.len() implies #[trigger] replace_and_case(t, a, b, to, upper)[i]
        == t[i] by {
        let c = if s[i] == a || s[i] == b {
            to
        } else {
            s[i]
        };
        lemma_ascii_case_facts(c);
        lemma_ascii_case_facts(t[i]);
    }
    assert(replace_and_case(t, a, b, to, upper) =~= t);
}

/// Converting to snake_case, kebab-case or UPPER_CASE a second time changes
/// nothing.
pub proof fn law_replacing_casings_idempotent(s: Seq<char>)
    ensures
        snake_case(snake_case(s)) == snake_case(s),
        kebab_case(kebab_case(s)) == kebab_case(s),
        upper_case(upper_case(s)) == upper_case(s),
{
    lemma_replace_and_case_idempotent(s, ' ', '-', '_', false);
    lemma_replace_and_case_idempotent(s, ' ', '_', '-', false);
    lemma_replace_and_case_idempotent(s, ' ', '-', '_', true);
}

/// snake_case and kebab-case hold no ASCII upper-case letter, UPPER_CASE no
/// ASCII lower-case letter; none of them holds a space, and snake_case and
/// UPPER_CASE hold no `-`, kebab-case no `_`.
pub proof fn law_replacing_casings_output(s: Seq<char>)
    ensures
        forall|i: int|
            0 <= i < s.len() ==> {
                let c = #[trigger] snake_case(s)[i];
                !('A' <= c <= 'Z') && c != ' ' && c != '-'
            },
        forall|i: int|
            0 <= i < s.len() ==> {
                let c = #[trigger] kebab_case(s)[i];
                !('A' <= c <= 'Z') && c != ' ' && c != '_'
            },
        forall|i: int|
            0 <= i < s.len() ==> {
                let c = #[trigger] upper_case(s)[i];
                !('a' <= c <= 'z') && c != ' ' && c != '-'
            },
{
    assert forall|i: int| 0 <= i < s.len() implies {
        let c = #[trigger] snake_case(s)[i];
        !('A' <= c <= 'Z') && c != ' ' && c != '-'
    } by {
        let c = if s[i] == ' ' || s[i] == '-' { '_' } else { s[i] };
        lemma_ascii_case_facts(c);
    }
    assert forall|i: int| 0 <= i < s.len() implies {
        let c = #[trigger] kebab_case(s)[i];
        !('A' <= c <= 'Z') && c != ' ' && c != '_'
    } by {
        let c = if s[i] == ' ' || s[i] == '_' { '-' } else { s[i] };
        lemma_ascii_case_facts(c);
    }
    assert forall|i: int| 0 <= i < s.len() implies {
        let c = #[trigger] upper_case(s)[i];
        !('a' <= c <= 'z') && c != ' ' && c != '-'
    } by {
        let c = if s[i] == ' ' || s[i] == '-' { '_' } else { s[i] };
        lemma_ascii_case_facts(c);
    }
}

proof fn lemma_capitalize_words_no_breaks(s: Seq<char>, first: bool)
    ensures
        forall|i: int|
            0 <= i < capitalize_words(s, first).0.len() ==> !is_word_break(
                #[trigger] capitalize_words(s, first).0[i],
            ),
        capitalize_words(s, first).0.len() <= s.len(),
    decreases s.len(),
{
    if s.len() > 0 {
        lemma_capitalize_words_no_breaks(s.drop_last(), first);
        lemma_ascii_case_facts(s.last());
        let (out, cap) = capitalize_words(s.drop_last(), first);
        let c = s.last();
        assert(!('A' <= c <= 'Z') ==> ascii_lower(c) == c);
        assert(!('a' <= c <= 'z') ==> ascii_upper(c) == c);
    }
}

/// camelCase and PascalCase drop every word break (white space, `_`, `-`)
/// and never lengthen the text.
pub proof fn law_capitalizing_casings_drop_breaks(s: Seq<char>)
    ensures
        forall|i: int|
            0 <= i < camel_case(s).len() ==> !is_word_break(#[trigger] camel_case(s)[i]),
        forall|i: int|
            0 <= i < pascal_case(s).len() ==> !is_word_break(#[trigger] pascal_case(s)[i]),
        camel_case(s).len() <= s.len(),
        pascal_case(s).len() <= s.len(),
{
    lemma_capitalize_words_no_breaks(s, false);
    lemma_capitalize_words_no_breaks(s, true);
}

/// The characters of `s` other than white space, `_` and `-`, in order.
pub open spec fn word_characters(s: Seq<char>) -> Seq<char>
    decreases s.len(),
{
    if s.len() == 0 {
        Seq::empty()
    } else {
        let c = s.last();
        if is_white_space(c) || c == '_' || c == '-' {
            word_characters(s.drop_last())
        } else {
            word_characters(s.drop_last()).push(c)
        }
    }
}

/// `out` is `word` up to the case of ASCII letters: each character is the
/// same, or the same ASCII letter in the other case.
pub open spec fn same_up_to_ascii_case(out: Seq<char>, word: Seq<char>) -> bool {
    &&& out.len() == word.len()
    &&& forall|i: int|
        0 <= i < out.len() ==> {
            let (c, k) = (#[trigger] out[i], word[i]);
            ||| c == k
            ||| ('a' <= k <= 'z' && c as int == k as int - 32)
            ||| ('A' <= k <= 'Z' && c as int == k as int + 32)
        }
}

proof fn lemma_capitalize_words_keeps_characters(s: Seq<char>, first: bool)
    ensures
        same_up_to_ascii_case(capitalize_words(s, first).0, word_characters(s)),
    decreases s.len(),
{
    if s.len() > 0 {
        lemma_capitalize_words_keeps_characters(s.drop_last(), first);
        let (out, cap) = capitalize_words(s.drop_last(), first);
        let w = word_characters(s.drop_last());
        let c = s.last();
        lemma_ascii_case_facts(c);
        if !(is_white_space(c) || c == '_' || c == '-') {
            let o2 = capitalize_words(s, first).0;
            let w2 = word_characters(s);
            assert forall|i: int| 0 <= i < o2.len() implies {
                let (x, k) = (#[trigger] o2[i], w2[i]);
                ||| x == k
                ||| ('a' <= k <= 'z' && x as int == k as int - 32)
                ||| ('A' <= k <= 'Z' && x as int == k as int + 32)
            } by {
                if i < out.len() {
                    assert(o2[i] == out[i]);
                    assert(w2[i] == w[i]);
                }
            }
        }
    }
}

/// camelCase and PascalCase break words only at white space, `_` and `-`:
/// they drop exactly those characters and keep every other one, in order,
/// changing at most the case of ASCII letters (so `.` or `é` stay).
pub proof fn law_capitalizing_casings_keep_word_characters(s: Seq<char>)
    ensures
        same_up_to_ascii_case(camel_case(s), word_characters(s)),
        same_up_to_ascii_case(pascal_case(s), word_characters(s)),
{
    lemma_capitalize_words_keeps_characters(s, false);
    lemma_capitalize_words_keeps_characters(s, true);
}

proof fn lemma_camel_pascal_agree(s: Seq<char>)
    ensures
        capitalize_words(s, false).0.len() == capitalize_words(s, true).0.len(),
        forall|i: int|
            1 <= i < capitalize_words(s, false).0.len() ==> #[trigger] capitalize_words(
                s,
                false,
            ).0[i] == capitalize_words(s, true).0[i],
        capitalize_words(s, false).0.len() > 0 ==> capitalize_words(s, false).1
            == capitalize_words(s, true).1,
        capitalize_words(s, false).0.len() == 0 ==> capitalize_words(s, true).1,
        capitalize_words(s, false).1 ==> capitalize_words(s, true).1,
    decreases s.len(),
{
    if s.len() > 0 {
        lemma_camel_pascal_agree(s.drop_last());
    }
}

/// camelCase and PascalCase of the same text have the same length and
/// differ at most in the first character.
pub proof fn law_camel_and_pascal_differ_only_first(s: Seq<char>)
    ensures
        camel_case(s).len() == pascal_case(s).len(),
        forall|i: int| 1 <= i < camel_case(s).len() ==> #[trigger] camel_case(s)[i] == pascal_case(s)[i],
{
    lemma_camel_pascal_agree(s);
}

fn capitalize(s: &str, capitalize_first: bool) -> (r: String)
    ensures
        r@ == capitalize_words(s@, capitalize_first).0,
{
    let mut result = String::new();
    let mut cap = capitalize_first;
    assert(s@.take(0) =~= Seq::<char>::empty());
    for c in it: s.chars()
        invariant
            it.seq() == s@,
            (result@, cap) == capitalize_words(s@.take(it.index() as int), capitalize_first),
    {
        let ghost i = it.index();
        assert(s@.take(i + 1).drop_last() =~= s@.take(i as int));
        assert(s@.take(i + 1).last() == c);
        if white_space(c) || c == '_' || c == '-' {
            cap = true;
        } else if cap {
            push_char(&mut result, to_ascii_upper(c));
            cap = false;
        } else {
            push_char(&mut result, to_ascii_lower(c));
        }
    }
    assert(s@.take(s@.len() as int) =~= s@);
    result
}

fn replace_and_convert(s: &str, a: char, b: char, to: char, upper: bool) -> (r: String)
    ensures
        r@ == replace_and_case(s@, a, b, to, upper),
{
    let mut result = String::new();
    for c in it: s.chars()
        invariant
            it.seq() == s@,
            result@ =~= replace_and_case(s@.take(it.index() as int), a, b, to, upper),
    {
        let ghost i = it.index();
        let d = if c == a || c == b {
            to
        } else {
            c
        };
        let e = if upper {
            to_ascii_upper(d)
        } else {
            to_ascii_lower(d)
        };
        push_char(&mut result, e);
        assert(result@ =~= replace_and_case(s@.take(i + 1), a, b, to, upper));
    }
    assert(s@.take(s@.len() as int) =~= s@);
    result
}

/// Converts `s` to the casing named `case` (`camelCase`, `PascalCase`,
/// `snake_case`, `kebab-case` or `UPPER_CASE`); any other name gives `s`
/// back unchanged.
pub fn to_case(s: String, case: &str) -> (r: String)
    ensures
        r@ == cased(s@, case@),
{
    if same_text(case, "camelCase") {
        capitalize(s.as_str(), false)
    } else if same_text(case, "PascalCase") {
        capitalize(s.as_str(), true)
    } else if same_text(case, "snake_case") {
        replace_and_convert(s.as_str(), ' ', '-', '_', false)
    } else if same_text(case, "kebab-case") {
        replace_and_convert(s.as_str(), ' ', '_', '-', false)
    } else if same_text(case, "UPPER_CASE") {
        replace_and_convert(s.as_str(), ' ', '-', '_', true)
    } else {
        s
    }
}

} // verus!
