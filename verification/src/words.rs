//! White space and letter case: trimming a text, collapsing doubled spaces,
//! and picking the tags out of it.

use crate::text::{push_range, string_of};
use vstd::prelude::*;

verus! {

/// Whether a character outside ASCII is white space, as `char::is_whitespace`
/// tells it.
pub uninterp spec fn unicode_white_space(c: char) -> bool;

/// `c` is one of the six white spaces of ASCII: tab, line feed, vertical tab,
/// form feed, carriage return and space.
pub open spec fn is_ascii_space(c: char) -> bool {
    9 <= c as u32 <= 13 || c as u32 == 32
}

/// `c` is white space: one of the six of ASCII, or white space by the Unicode
/// tables.
pub open spec fn is_whitespace(c: char) -> bool {
    if c as u32 <= 127 {
        is_ascii_space(c)
    } else {
        unicode_white_space(c)
    }
}

/// `char::is_whitespace`: whether `c` has White_Space in the Unicode tables.
/// Of the characters of ASCII those are tab, line feed, vertical tab, form
/// feed, carriage return and space.
#[verifier::external_body]
pub(crate) fn whitespace(c: char) -> (r: bool)
    ensures
        r == if c as u32 <= 127 {
            is_ascii_space(c)
        } else {
            unicode_white_space(c)
        },
{
    c.is_whitespace()
}

/// Whether a character outside ASCII is a letter, as `char::is_alphabetic`
/// tells it.
pub uninterp spec fn unicode_alphabetic(c: char) -> bool;

/// Whether a character outside ASCII is a letter or a number, as
/// `char::is_alphanumeric` tells it.
pub uninterp spec fn unicode_alphanumeric(c: char) -> bool;

/// `c` is one of the 52 letters of ASCII.
pub open spec fn is_ascii_alphabetic(c: char) -> bool {
    'a' as u32 <= c as u32 <= 'z' as u32 || 'A' as u32 <= c as u32 <= 'Z' as u32
}

/// `char::is_alphabetic`: whether `c` is a letter by the Unicode tables. Of
/// the characters of ASCII those are `a` to `z` and `A` to `Z`.
#[verifier::external_body]
pub(crate) fn alphabetic(c: char) -> (r: bool)
    ensures
        r == if c as u32 <= 127 {
            is_ascii_alphabetic(c)
        } else {
            unicode_alphabetic(c)
        },
{
    c.is_alphabetic()
}

/// `char::is_alphanumeric`: whether `c` is a letter or a number by the
/// Unicode tables. Of the characters of ASCII those are the letters and the
/// ten digits.
#[verifier::external_body]
pub(crate) fn alphanumeric(c: char) -> (r: bool)
    ensures
        r == if c as u32 <= 127 {
            is_ascii_alphabetic(c) || '0' as u32 <= c as u32 <= '9' as u32
        } else {
            unicode_alphanumeric(c)
        },
{
    c.is_alphanumeric()
}

/// A text that is not all of ASCII in lower case, as `str::to_lowercase`
/// gives it.
pub uninterp spec fn unicode_lowercase(s: Seq<char>) -> Seq<char>;

/// Every character of `s` is one of ASCII.
pub open spec fn is_ascii_text(s: Seq<char>) -> bool {
    forall|i: int| 0 <= i < s.len() ==> (#[trigger] s[i]) as u32 <= 127
}

/// The small letter of a capital letter of ASCII; any other character itself.
pub open spec fn ascii_lower(c: char) -> char {
    if 'A' as u32 <= c as u32 <= 'Z' as u32 {
        ((c as u32 + 32) as u8) as char
    } else {
        c
    }
}

/// `s` in lower case: a text of ASCII with its capital letters made small,
/// any other text by the Unicode rules.
pub open spec fn lowercase(s: Seq<char>) -> Seq<char> {
    if is_ascii_text(s) {
        s.map_values(|c: char| ascii_lower(c))
    } else {
        unicode_lowercase(s)
    }
}

/// `str::to_lowercase`: the lower-case form of `s` by the Unicode rules,
/// which depends on nothing but the characters of `s`. A text of ASCII has
/// its capital letters made small and nothing else changed.
#[verifier::external_body]
pub(crate) fn to_lowercase(s: &str) -> (r: String)
    ensures
        r@ == if is_ascii_text(s@) {
            s@.map_values(|c: char| ascii_lower(c))
        } else {
            unicode_lowercase(s@)
        },
{
    s.to_lowercase()
}

/// `s` without the white space it begins with.
pub open spec fn trim_start(s: Seq<char>) -> Seq<char>
    decreases s.len(),
{
    if s.len() > 0 && is_whitespace(s[0]) {
        trim_start(s.drop_first())
    } else {
        s
    }
}

/// `s` without the white space it ends with.
pub open spec fn trim_end(s: Seq<char>) -> Seq<char>
    decreases s.len(),
{
    if s.len() > 0 && is_whitespace(s.last()) {
        trim_end(s.drop_last())
    } else {
        s
    }
}

/// `s` without the white space at either end.
pub open spec fn trimmed(s: Seq<char>) -> Seq<char> {
    trim_end(trim_start(s))
}

/// `s` read from the left, each pair of spaces met on the way replaced by
/// one space. A run of three spaces comes out as two.
pub open spec fn collapse_spaces(s: Seq<char>) -> Seq<char>
    decreases s.len(),
{
    if s.len() >= 2 && s[0] == ' ' && s[1] == ' ' {
        seq![' '] + collapse_spaces(s.skip(2))
    } else if s.len() >= 1 {
        seq![s[0]] + collapse_spaces(s.skip(1))
    } else {
        s
    }
}

/// The number of characters before the first white space of `s`.
pub open spec fn word_len(s: Seq<char>) -> nat
    decreases s.len(),
{
    if s.len() == 0 || is_whitespace(s[0]) {
        0
    } else {
        1 + word_len(s.drop_first())
    }
}

/// A word is no longer than the text it begins.
pub proof fn lemma_word_len_bound(s: Seq<char>)
    ensures
        word_len(s) <= s.len(),
    decreases s.len(),
{
    if s.len() > 0 && !is_whitespace(s[0]) {
        lemma_word_len_bound(s.drop_first());
    }
}

/// The tags of `s`: of its words, the maximal runs without white space, those
/// that begin with `#`, from left to right and with repetitions.
pub open spec fn tags_of(s: Seq<char>) -> Seq<Seq<char>>
    decreases s.len(),
    via tags_of_decreases
{
    if s.len() == 0 {
        Seq::empty()
    } else if is_whitespace(s[0]) {
        tags_of(s.drop_first())
    } else {
        let n = word_len(s) as int;
        if s[0] == '#' {
            seq![s.take(n)] + tags_of(s.skip(n))
        } else {
            tags_of(s.skip(n))
        }
    }
}

#[via_fn]
proof fn tags_of_decreases(s: Seq<char>) {
    lemma_word_len_bound(s);
}

/// Trimming at the start does not lengthen.
pub proof fn lemma_trim_start_len(s: Seq<char>)
    ensures
        trim_start(s).len() <= s.len(),
    decreases s.len(),
{
    if s.len() > 0 {
        lemma_trim_start_len(s.drop_first());
    }
}

/// Trimming at the end does not lengthen.
pub proof fn lemma_trim_end_len(s: Seq<char>)
    ensures
        trim_end(s).len() <= s.len(),
    decreases s.len(),
{
    if s.len() > 0 {
        lemma_trim_end_len(s.drop_last());
    }
}

/// Collapsing does not lengthen.
pub proof fn lemma_collapse_len(s: Seq<char>)
    ensures
        collapse_spaces(s).len() <= s.len(),
    decreases s.len(),
{
    if s.len() >= 2 && s[0] == ' ' && s[1] == ' ' {
        lemma_collapse_len(s.skip(2));
    } else if s.len() >= 1 {
        lemma_collapse_len(s.skip(1));
    }
}

/// `text` without the white space at either end.
pub fn trim(text: &Vec<char>) -> (r: Vec<char>)
    ensures
        r@ == trimmed(text@),
{
    let n = text.len();
    let mut from: usize = 0;
    assert(text@.skip(0) =~= text@);
    while from < n
        invariant
            n == text.len(),
            from <= n,
            trim_start(text@) == trim_start(text@.skip(from as int)),
        ensures
            from == n || !is_whitespace(text@[from as int]),
        decreases n - from,
    {
        if !whitespace(text[from]) {
            break ;
        }
        assert(text@.skip(from as int).drop_first() =~= text@.skip(from + 1));
        from += 1;
    }
    assert(trim_start(text@) == text@.skip(from as int));
    let mut to: usize = n;
    assert(text@.subrange(from as int, n as int) =~= text@.skip(from as int));
    while to > from
        invariant
            n == text.len(),
            from <= to <= n,
            trimmed(text@) == trim_end(text@.subrange(from as int, to as int)),
        ensures
            to == from || !is_whitespace(text@[to - 1]),
        decreases to,
    {
        if !whitespace(text[to - 1]) {
            break ;
        }
        assert(text@.subrange(from as int, to as int).drop_last() =~= text@.subrange(
            from as int,
            to - 1,
        ));
        to -= 1;
    }
    let mut out: Vec<char> = Vec::new();
    push_range(&mut out, text, from, to);
    out
}

/// `text` with each pair of spaces, met from the left, replaced by one.
pub fn collapse(text: &Vec<char>) -> (r: Vec<char>)
    ensures
        r@ == collapse_spaces(text@),
{
    let n = text.len();
    let mut out: Vec<char> = Vec::new();
    let mut i: usize = 0;
    assert(text@.skip(0) =~= text@);
    while i < n
        invariant
            n == text.len(),
            i <= n,
            out@ + collapse_spaces(text@.skip(i as int)) == collapse_spaces(text@),
        decreases n - i,
    {
        let ghost rest = text@.skip(i as int);
        let ghost before = out@;
        if text[i] == ' ' && i + 1 < n && text[i + 1] == ' ' {
            out.push(' ');
            assert(rest.skip(2) =~= text@.skip(i + 2));
            assert(out@ + collapse_spaces(rest.skip(2)) =~= before + (seq![' '] + collapse_spaces(
                rest.skip(2),
            )));
            i += 2;
        } else {
            out.push(text[i]);
            assert(rest.skip(1) =~= text@.skip(i + 1));
            assert(out@ + collapse_spaces(rest.skip(1)) =~= before + (seq![rest[0]]
                + collapse_spaces(rest.skip(1))));
            i += 1;
        }
    }
    assert(out@ + Seq::<char>::empty() =~= out@);
    out
}

/// The tags of `text`.
pub fn tags(text: &Vec<char>) -> (r: Vec<String>)
    ensures
        r.deep_view() == tags_of(text@),
{
    let n = text.len();
    let mut out: Vec<String> = Vec::new();
    let mut i: usize = 0;
    assert(text@.skip(0) =~= text@);
    assert(out.deep_view() + tags_of(text@) =~= tags_of(text@));
    while i < n
        invariant
            n == text.len(),
            i <= n,
            out.deep_view() + tags_of(text@.skip(i as int)) == tags_of(text@),
        decreases n - i,
    {
        let ghost rest = text@.skip(i as int);
        if whitespace(text[i]) {
            assert(rest.drop_first() =~= text@.skip(i + 1));
            i += 1;
        } else {
            let mut end: usize = i + 1;
            assert(rest.drop_first() =~= text@.skip(i + 1));
            while end < n
                invariant
                    n == text.len(),
                    i < end <= n,
                    word_len(rest) == (end - i) + word_len(text@.skip(end as int)),
                ensures
                    end == n || is_whitespace(text@[end as int]),
                decreases n - end,
            {
                if whitespace(text[end]) {
                    break ;
                }
                assert(text@.skip(end as int).drop_first() =~= text@.skip(end + 1));
                end += 1;
            }
            assert(word_len(rest) == end - i);
            assert(rest.skip(end - i) =~= text@.skip(end as int));
            if text[i] == '#' {
                let mut word: Vec<char> = Vec::new();
                push_range(&mut word, text, i, end);
                assert(word@ =~= rest.take(end - i));
                let ghost before = out.deep_view();
                out.push(string_of(&word));
                assert(out.deep_view() =~= before.push(word@));
                assert(out.deep_view() + tags_of(text@.skip(end as int)) =~= before + (seq![
                    word@,
                ] + tags_of(text@.skip(end as int))));
            }
            i = end;
        }
    }
    assert(out.deep_view() + Seq::<Seq<char>>::empty() =~= out.deep_view());
    out
}

} // verus!
