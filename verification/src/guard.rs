//! The texts that can be handed to the English parser.
//!
//! The parser reads a text token by token from its start and stops where
//! date and time are complete; what follows is not read. It can stop the
//! program in three kinds of places:
//!
//! - where it slices the first bytes of a word, among its first four tokens;
//! - where it reckons with a number it has read: the number that begins the
//!   date, among its first three tokens; an hour before `pm`; the hours and
//!   minutes of an offset after `+` or `-`;
//! - where it reads the fraction of a second, after the full stop that
//!   follows hours, minutes and seconds.
//!
//! A text is safe where none of these can fail. The words that are sliced
//! and the number that begins the date are found as the parser finds them.
//! For an hour, an offset and a fraction the test is made on the shape of the
//! text about each such place, not on what the parser reads of it, so it
//! refuses some texts that the parser reads without fault: a text with a
//! time with seconds, and a full stop or an offset that cannot be read after
//! it, behind the date and time that the parser reads.

use crate::digits::is_digit;
use crate::text::{chars_of, is_word, push_range, string_of};
use crate::words::{
    alphabetic, alphanumeric, is_ascii_alphabetic, is_whitespace, lowercase, to_lowercase,
    unicode_alphabetic, unicode_alphanumeric, whitespace,
};
use vstd::prelude::*;

verus! {

/// The most digits of the number that begins a date.
pub const START_DIGITS: usize = 7;

/// The most digits of the hours and the minutes of an offset.
pub const OFFSET_DIGITS: usize = 6;

/// The fewest digits of an hour to which 12 cannot be added.
pub const HOUR_DIGITS: usize = 10;

/// A word can begin with `c`: a letter or `_`.
pub open spec fn is_word_start(c: char) -> bool {
    if c as u32 <= 127 {
        is_ascii_alphabetic(c) || c == '_'
    } else {
        unicode_alphabetic(c)
    }
}

/// A word can go on with `c`: a letter, a number or `_`.
pub open spec fn is_word_part(c: char) -> bool {
    if c as u32 <= 127 {
        is_ascii_alphabetic(c) || is_digit(c) || c == '_'
    } else {
        unicode_alphanumeric(c)
    }
}

/// The position after the word that begins at `at`.
pub open spec fn past_word(text: Seq<char>, at: int) -> int
    decreases text.len() - at,
{
    if 0 <= at < text.len() && is_word_part(text[at]) {
        past_word(text, at + 1)
    } else {
        at
    }
}

/// The number of bytes that `c` takes in UTF-8.
pub open spec fn bytes_of(c: char) -> int {
    if (c as u32) < 0x80 {
        1
    } else if (c as u32) < 0x800 {
        2
    } else if (c as u32) < 0x10000 {
        3
    } else {
        4
    }
}

/// The first three bytes of `word` in UTF-8 are whole characters, or `word`
/// has fewer than three bytes.
pub open spec fn three_bytes_ok(word: Seq<char>) -> bool {
    if word.len() == 0 {
        true
    } else if bytes_of(word[0]) == 3 {
        true
    } else if bytes_of(word[0]) == 4 {
        false
    } else if word.len() == 1 {
        true
    } else if bytes_of(word[0]) + bytes_of(word[1]) == 3 {
        true
    } else if bytes_of(word[0]) + bytes_of(word[1]) > 3 {
        false
    } else if word.len() == 2 {
        true
    } else {
        bytes_of(word[2]) == 1
    }
}

/// The first byte of `word` in UTF-8 is a whole character, or `word` has
/// three bytes or more.
pub open spec fn one_byte_ok(word: Seq<char>) -> bool {
    if word.len() == 0 {
        true
    } else if bytes_of(word[0]) >= 3 {
        true
    } else if word.len() == 1 {
        bytes_of(word[0]) == 1
    } else if bytes_of(word[0]) + bytes_of(word[1]) >= 3 {
        true
    } else if word.len() == 2 {
        bytes_of(word[0]) == 1
    } else {
        true
    }
}

/// The position of the token with which the date begins: the first of the
/// text, or the one after `-`, and the one after `next` or `last`.
pub open spec fn date_start(text: Seq<char>) -> int {
    let first = past_space(text, 0);
    let signed = if first < text.len() && text[first] == '-' {
        past_space(text, first + 1)
    } else {
        first
    };
    let word = text.subrange(signed, past_word(text, signed));
    if signed < text.len() && is_word_start(text[signed]) && (word == "next"@ || word == "last"@) {
        past_space(text, past_word(text, signed))
    } else {
        signed
    }
}

/// The word at position `at` can be sliced as the parser slices the name of
/// a day or a month: in lower case its first three bytes are whole characters.
pub open spec fn name_ok(text: Seq<char>, at: int) -> bool {
    at < text.len() && is_word_start(text[at]) ==> three_bytes_ok(
        lowercase(text.subrange(at, past_word(text, at))),
    )
}

/// The word at position `at` can be sliced as the parser slices the name of
/// a unit of time: as a name, and its first byte where it has fewer than three.
pub open spec fn unit_ok(text: Seq<char>, at: int) -> bool {
    at < text.len() && is_word_start(text[at]) ==> three_bytes_ok(
        lowercase(text.subrange(at, past_word(text, at))),
    ) && one_byte_ok(lowercase(text.subrange(at, past_word(text, at))))
}

/// The beginning of the date can be read: the word it begins with can be
/// sliced, or the number it begins with has no more than seven digits and
/// the word after it can be sliced.
pub open spec fn start_ok(text: Seq<char>) -> bool {
    let start = date_start(text);
    if start < text.len() && is_digit(text[start]) {
        past_digits(text, start) - start <= START_DIGITS && unit_ok(
            text,
            past_space(text, past_digits(text, start)),
        )
    } else {
        name_ok(text, start)
    }
}

/// The position before the white space that ends at `at`.
pub open spec fn back_space(text: Seq<char>, at: int) -> int
    decreases at,
{
    if 0 < at <= text.len() && is_whitespace(text[at - 1]) {
        back_space(text, at - 1)
    } else {
        at
    }
}

/// The position at which the digits begin that end at `at`.
pub open spec fn back_digits(text: Seq<char>, at: int) -> int
    decreases at,
{
    if 0 < at <= text.len() && is_digit(text[at - 1]) {
        back_digits(text, at - 1)
    } else {
        at
    }
}

/// The position after the white space that begins at `at`.
pub open spec fn past_space(text: Seq<char>, at: int) -> int
    decreases text.len() - at,
{
    if 0 <= at < text.len() && is_whitespace(text[at]) {
        past_space(text, at + 1)
    } else {
        at
    }
}

/// The position after the digits that begin at `at`.
pub open spec fn past_digits(text: Seq<char>, at: int) -> int
    decreases text.len() - at,
{
    if 0 <= at < text.len() && is_digit(text[at]) {
        past_digits(text, at + 1)
    } else {
        at
    }
}

/// The character before position `at`, white space apart, is `c`.
pub open spec fn comes_after(text: Seq<char>, at: int, c: char) -> bool {
    let before = back_space(text, at);
    0 < before <= text.len() && text[before - 1] == c
}

/// A number ends before position `at`, white space apart.
pub open spec fn number_before(text: Seq<char>, at: int) -> bool {
    let before = back_space(text, at);
    0 < before <= text.len() && is_digit(text[before - 1])
}

/// Where the number begins that ends before position `at`, white space apart.
pub open spec fn number_start(text: Seq<char>, at: int) -> int {
    back_digits(text, back_space(text, at))
}

/// Hours, minutes and seconds stand before position `at`: three numbers
/// with a colon between each two, white space apart.
pub open spec fn seconds_before(text: Seq<char>, at: int) -> bool {
    let seconds = number_start(text, at);
    let minutes = number_start(text, back_space(text, seconds) - 1);
    &&& number_before(text, at)
    &&& comes_after(text, seconds, ':')
    &&& number_before(text, back_space(text, seconds) - 1)
    &&& comes_after(text, minutes, ':')
    &&& number_before(text, back_space(text, minutes) - 1)
}

/// What follows the full stop at `at` can be read as a fraction: nothing, or
/// digits with no character outside ASCII after them.
pub open spec fn fraction_ok(text: Seq<char>, at: int) -> bool {
    at + 1 >= text.len() || (is_digit(text[at + 1]) && (past_digits(text, at + 1) >= text.len()
        || text[past_digits(text, at + 1)] as u32 <= 127))
}

/// A sign stands before position `at`, white space apart.
pub open spec fn sign_before(text: Seq<char>, at: int) -> bool {
    comes_after(text, at, '+') || comes_after(text, at, '-')
}

/// A time with seconds ends before position `at`, white space apart: hours,
/// minutes and seconds, or these and a full stop and a number.
pub open spec fn time_before(text: Seq<char>, at: int) -> bool {
    ||| seconds_before(text, at)
    ||| number_before(text, at) && comes_after(text, number_start(text, at), '.')
        && seconds_before(text, back_space(text, number_start(text, at)) - 1)
}

/// The number at `at` may be the hours of an offset: it stands after a sign
/// that stands after a time with seconds.
pub open spec fn offset_hours(text: Seq<char>, at: int) -> bool {
    sign_before(text, at) && time_before(text, back_space(text, at) - 1)
}

/// The number at `at` may be the minutes of an offset: it stands after a
/// colon, that after a number that may be the hours of one.
pub open spec fn offset_minutes(text: Seq<char>, at: int) -> bool {
    &&& comes_after(text, at, ':')
    &&& number_before(text, back_space(text, at) - 1)
    &&& offset_hours(text, number_start(text, back_space(text, at) - 1))
}

/// The number that ends at `end` may be an hour before `pm`: the word `pm`
/// comes after it, or a colon or a full stop and then a number.
pub open spec fn hour_before_pm(text: Seq<char>, end: int) -> bool {
    let next = past_space(text, end);
    ||| next + 1 < text.len() && text[next] == 'p' && text[next + 1] == 'm' && (next + 2
        >= text.len() || !is_word_part(text[next + 2]))
    ||| next < text.len() && (text[next] == ':' || text[next] == '.') && past_space(text, next + 1)
        < text.len() && is_digit(text[past_space(text, next + 1)])
}

/// The number that begins at `at` can be reckoned with: it has no more than six
/// digits where it may be the hours or the minutes of an offset, and fewer
/// than ten where it may be an hour before `pm`.
pub open spec fn number_ok(text: Seq<char>, at: int) -> bool {
    let digits = past_digits(text, at) - at;
    &&& offset_hours(text, at) || offset_minutes(text, at) ==> digits <= OFFSET_DIGITS
    &&& hour_before_pm(text, past_digits(text, at)) ==> digits < HOUR_DIGITS
}

/// The place `at` of `text` is no place where the parser can fail.
pub open spec fn place_ok(text: Seq<char>, at: int) -> bool {
    &&& text[at] == '.' && seconds_before(text, at) ==> fraction_ok(text, at)
    &&& is_digit(text[at]) && (at == 0 || !is_digit(text[at - 1])) ==> number_ok(text, at)
}

/// A text that the English parser reads without fault.
///
/// It has fewer than `u32::MAX` characters. The beginning of its date can be
/// read. A full stop after hours, minutes and seconds has nothing or a
/// fraction in digits after it. A number has no more than six digits where
/// it may stand in an offset, and fewer than ten where it may be an hour
/// before `pm`.
pub open spec fn english_safe(text: Seq<char>) -> bool {
    &&& text.len() < u32::MAX
    &&& start_ok(text)
    &&& forall|at: int| 0 <= at < text.len() ==> #[trigger] place_ok(text, at)
}

/// Whether the character at `at` is a digit.
fn digit_at(text: &Vec<char>, at: usize) -> (r: bool)
    requires
        at < text.len(),
    ensures
        r == is_digit(text@[at as int]),
{
    let code: u32 = text[at] as u32;
    '0' as u32 <= code && code <= '9' as u32
}

/// The position before the white space that ends at `at`.
fn before_space(text: &Vec<char>, at: usize) -> (r: usize)
    requires
        at <= text.len(),
    ensures
        r == back_space(text@, at as int),
        r <= at,
{
    let mut i = at;
    while i > 0
        invariant
            i <= at <= text.len(),
            back_space(text@, at as int) == back_space(text@, i as int),
        ensures
            i == back_space(text@, at as int),
        decreases i,
    {
        if !whitespace(text[i - 1]) {
            break ;
        }
        i -= 1;
    }
    i
}

/// The position at which the digits begin that end at `at`.
fn before_digits(text: &Vec<char>, at: usize) -> (r: usize)
    requires
        at <= text.len(),
    ensures
        r == back_digits(text@, at as int),
        r <= at,
{
    let mut i = at;
    while i > 0
        invariant
            i <= at <= text.len(),
            back_digits(text@, at as int) == back_digits(text@, i as int),
        ensures
            i == back_digits(text@, at as int),
        decreases i,
    {
        if !digit_at(text, i - 1) {
            break ;
        }
        i -= 1;
    }
    i
}

/// The position after the white space that begins at `at`.
fn after_space(text: &Vec<char>, at: usize) -> (r: usize)
    requires
        at <= text.len(),
    ensures
        r == past_space(text@, at as int),
        at <= r <= text.len(),
{
    let mut i = at;
    while i < text.len()
        invariant
            at <= i <= text.len(),
            past_space(text@, at as int) == past_space(text@, i as int),
        ensures
            i == past_space(text@, at as int),
        decreases text.len() - i,
    {
        if !whitespace(text[i]) {
            break ;
        }
        i += 1;
    }
    i
}

/// The position after the digits that begin at `at`.
fn after_digits(text: &Vec<char>, at: usize) -> (r: usize)
    requires
        at <= text.len(),
    ensures
        r == past_digits(text@, at as int),
        at <= r <= text.len(),
{
    let mut i = at;
    while i < text.len()
        invariant
            at <= i <= text.len(),
            past_digits(text@, at as int) == past_digits(text@, i as int),
        ensures
            i == past_digits(text@, at as int),
        decreases text.len() - i,
    {
        if !digit_at(text, i) {
            break ;
        }
        i += 1;
    }
    i
}

/// Whether the character before position `at`, white space apart, is `c`.
fn is_after(text: &Vec<char>, at: usize, c: char) -> (r: bool)
    requires
        at <= text.len(),
    ensures
        r == comes_after(text@, at as int, c),
{
    let before = before_space(text, at);
    before > 0 && text[before - 1] == c
}

/// Whether a number ends before position `at`, white space apart.
fn is_after_number(text: &Vec<char>, at: usize) -> (r: bool)
    requires
        at <= text.len(),
    ensures
        r == number_before(text@, at as int),
{
    let before = before_space(text, at);
    before > 0 && digit_at(text, before - 1)
}

/// Whether hours, minutes and seconds stand before position `at`.
fn is_after_seconds(text: &Vec<char>, at: usize) -> (r: bool)
    requires
        at <= text.len(),
    ensures
        r == seconds_before(text@, at as int),
{
    if !is_after_number(text, at) {
        return false;
    }
    let seconds = before_digits(text, before_space(text, at));
    if !is_after(text, seconds, ':') {
        return false;
    }
    let colon = before_space(text, seconds) - 1;
    if !is_after_number(text, colon) {
        return false;
    }
    let minutes = before_digits(text, before_space(text, colon));
    if !is_after(text, minutes, ':') {
        return false;
    }
    is_after_number(text, before_space(text, minutes) - 1)
}

/// Whether what follows the full stop at `at` can be read as a fraction.
fn is_fraction_ok(text: &Vec<char>, at: usize) -> (r: bool)
    requires
        at < text.len(),
    ensures
        r == fraction_ok(text@, at as int),
{
    if at + 1 >= text.len() {
        return true;
    }
    if !digit_at(text, at + 1) {
        return false;
    }
    let end = after_digits(text, at + 1);
    end >= text.len() || text[end] as u32 <= 127
}

/// Whether a sign stands before position `at`, white space apart.
fn is_after_sign(text: &Vec<char>, at: usize) -> (r: bool)
    requires
        at <= text.len(),
    ensures
        r == sign_before(text@, at as int),
{
    is_after(text, at, '+') || is_after(text, at, '-')
}

/// Whether a time with seconds ends before position `at`.
fn is_after_time(text: &Vec<char>, at: usize) -> (r: bool)
    requires
        at <= text.len(),
    ensures
        r == time_before(text@, at as int),
{
    if is_after_seconds(text, at) {
        return true;
    }
    if !is_after_number(text, at) {
        return false;
    }
    let fraction = before_digits(text, before_space(text, at));
    if !is_after(text, fraction, '.') {
        return false;
    }
    is_after_seconds(text, before_space(text, fraction) - 1)
}

/// Whether the number at `at` may be the hours of an offset.
fn is_offset_hours(text: &Vec<char>, at: usize) -> (r: bool)
    requires
        at <= text.len(),
    ensures
        r == offset_hours(text@, at as int),
{
    if !is_after_sign(text, at) {
        return false;
    }
    is_after_time(text, before_space(text, at) - 1)
}

/// Whether the number at `at` may be the hours or the minutes of an offset.
fn is_in_offset(text: &Vec<char>, at: usize) -> (r: bool)
    requires
        at <= text.len(),
    ensures
        r == (offset_hours(text@, at as int) || offset_minutes(text@, at as int)),
{
    if is_offset_hours(text, at) {
        return true;
    }
    if !is_after(text, at, ':') {
        return false;
    }
    let colon = before_space(text, at) - 1;
    if !is_after_number(text, colon) {
        return false;
    }
    is_offset_hours(text, before_digits(text, before_space(text, colon)))
}

/// Whether the number that ends at `end` may be an hour before `pm`.
fn is_hour_before_pm(text: &Vec<char>, end: usize) -> (r: bool)
    requires
        end <= text.len(),
        text.len() < u32::MAX,
    ensures
        r == hour_before_pm(text@, end as int),
{
    let n = text.len();
    let next = after_space(text, end);
    if next >= n {
        return false;
    }
    if text[next] == 'p' && next + 1 < n && text[next + 1] == 'm' {
        if next + 2 >= n {
            return true;
        }
        let c = text[next + 2];
        if !(alphanumeric(c) || c == '_') {
            return true;
        }
    }
    if text[next] == ':' || text[next] == '.' {
        let then = after_space(text, next + 1);
        return then < n && digit_at(text, then);
    }
    false
}

/// Whether the number that begins at `at` can be reckoned with.
fn is_number_ok(text: &Vec<char>, at: usize) -> (r: bool)
    requires
        at < text.len(),
        text.len() < u32::MAX,
    ensures
        r == number_ok(text@, at as int),
{
    let end = after_digits(text, at);
    let digits = end - at;
    if is_in_offset(text, at) && digits > OFFSET_DIGITS {
        return false;
    }
    !(is_hour_before_pm(text, end) && digits >= HOUR_DIGITS)
}

/// Whether a word can begin with `c`.
fn word_start(c: char) -> (r: bool)
    ensures
        r == is_word_start(c),
{
    alphabetic(c) || c == '_'
}

/// The position after the word that begins at `at`.
fn after_word(text: &Vec<char>, at: usize) -> (r: usize)
    requires
        at <= text.len(),
    ensures
        r == past_word(text@, at as int),
        at <= r <= text.len(),
{
    let mut i = at;
    while i < text.len()
        invariant
            at <= i <= text.len(),
            past_word(text@, at as int) == past_word(text@, i as int),
        ensures
            i == past_word(text@, at as int),
        decreases text.len() - i,
    {
        if !(alphanumeric(text[i]) || text[i] == '_') {
            break ;
        }
        i += 1;
    }
    i
}

/// The number of bytes that `c` takes in UTF-8.
fn byte_count(c: char) -> (r: usize)
    ensures
        r == bytes_of(c),
{
    let code: u32 = c as u32;
    if code < 0x80 {
        1
    } else if code < 0x800 {
        2
    } else if code < 0x10000 {
        3
    } else {
        4
    }
}

/// Whether the first three bytes of `word` are whole characters.
fn is_three_bytes_ok(word: &Vec<char>) -> (r: bool)
    ensures
        r == three_bytes_ok(word@),
{
    if word.len() == 0 {
        return true;
    }
    let first = byte_count(word[0]);
    if first == 3 {
        return true;
    }
    if first == 4 {
        return false;
    }
    if word.len() == 1 {
        return true;
    }
    let two = first + byte_count(word[1]);
    if two == 3 {
        return true;
    }
    if two > 3 {
        return false;
    }
    if word.len() == 2 {
        return true;
    }
    byte_count(word[2]) == 1
}

/// Whether the first byte of `word` is a whole character, where it has
/// fewer than three.
fn is_one_byte_ok(word: &Vec<char>) -> (r: bool)
    ensures
        r == one_byte_ok(word@),
{
    if word.len() == 0 {
        return true;
    }
    let first = byte_count(word[0]);
    if first >= 3 {
        return true;
    }
    if word.len() == 1 {
        return first == 1;
    }
    if first + byte_count(word[1]) >= 3 {
        return true;
    }
    if word.len() == 2 {
        return first == 1;
    }
    true
}

/// The word that begins at `at`, in lower case.
fn lower_word(text: &Vec<char>, at: usize) -> (r: Vec<char>)
    requires
        at <= text.len(),
    ensures
        r@ == lowercase(text@.subrange(at as int, past_word(text@, at as int))),
{
    let mut word: Vec<char> = Vec::new();
    push_range(&mut word, text, at, after_word(text, at));
    assert(word@ =~= text@.subrange(at as int, past_word(text@, at as int)));
    let lower = to_lowercase(string_of(&word).as_str());
    chars_of(lower.as_str())
}

/// The position of the token with which the date begins.
fn start_of_date(text: &Vec<char>) -> (r: usize)
    ensures
        r == date_start(text@),
        r <= text.len(),
{
    let first = after_space(text, 0);
    let signed = if first < text.len() && text[first] == '-' {
        after_space(text, first + 1)
    } else {
        first
    };
    if signed < text.len() && word_start(text[signed]) {
        let end = after_word(text, signed);
        let mut word: Vec<char> = Vec::new();
        push_range(&mut word, text, signed, end);
        assert(word@ =~= text@.subrange(signed as int, end as int));
        if is_word(&word, "next") || is_word(&word, "last") {
            return after_space(text, end);
        }
    }
    signed
}

/// Whether the beginning of the date can be read.
fn is_start_ok(text: &Vec<char>) -> (r: bool)
    ensures
        r == start_ok(text@),
{
    let start = start_of_date(text);
    if start < text.len() && digit_at(text, start) {
        let end = after_digits(text, start);
        if end - start > START_DIGITS {
            return false;
        }
        let next = after_space(text, end);
        if next < text.len() && word_start(text[next]) {
            let word = lower_word(text, next);
            is_three_bytes_ok(&word) && is_one_byte_ok(&word)
        } else {
            true
        }
    } else if start < text.len() && word_start(text[start]) {
        is_three_bytes_ok(&lower_word(text, start))
    } else {
        true
    }
}

/// Whether the English parser reads `text` without fault.
pub fn is_english_safe(text: &Vec<char>) -> (r: bool)
    ensures
        r == english_safe(text@),
{
    let n = text.len();
    if n >= 0xffff_ffff {
        return false;
    }
    if !is_start_ok(text) {
        return false;
    }
    let mut i: usize = 0;
    while i < n
        invariant
            n == text.len(),
            n < u32::MAX,
            i <= n,
            forall|at: int| 0 <= at < i ==> #[trigger] place_ok(text@, at),
        decreases n - i,
    {
        if text[i] == '.' && is_after_seconds(text, i) && !is_fraction_ok(text, i) {
            assert(!place_ok(text@, i as int));
            return false;
        }
        if digit_at(text, i) && (i == 0 || !digit_at(text, i - 1)) && !is_number_ok(text, i) {
            assert(!place_ok(text@, i as int));
            return false;
        }
        assert(place_ok(text@, i as int));
        i += 1;
    }
    true
}

} // verus!
