//! The text of a due date: `YYYY-MM-DD`, followed by ` HH:MM` where the time
//! of day is not midnight.

use crate::calendar::{Date, TimeOfDay};
use crate::digits::{digit_char, four_digits, is_digit, push_four_digits, push_two_digits, two_digits};
use crate::text::{chars_of, string_of};
use vstd::prelude::*;

verus! {

/// A date as `YYYY-MM-DD`.
pub open spec fn date_text(date: Date) -> Seq<char> {
    four_digits(date.year as int) + seq!['-'] + two_digits(date.month as int) + seq!['-']
        + two_digits(date.day as int)
}

/// A date and a time of day as a due date: the date alone at midnight,
/// else the date, a space and `HH:MM`.
pub open spec fn due_text(date: Date, time: TimeOfDay) -> Seq<char> {
    if time.hour != 0 || time.minute != 0 {
        date_text(date) + seq![' '] + two_digits(time.hour as int) + seq![':'] + two_digits(
            time.minute as int,
        )
    } else {
        date_text(date)
    }
}

/// `s` has the shape `dddd-dd-dd` at position 0.
pub open spec fn has_date_shape(s: Seq<char>) -> bool {
    &&& s.len() >= 10
    &&& is_digit(s[0]) && is_digit(s[1]) && is_digit(s[2]) && is_digit(s[3])
    &&& s[4] == '-'
    &&& is_digit(s[5]) && is_digit(s[6])
    &&& s[7] == '-'
    &&& is_digit(s[8]) && is_digit(s[9])
}

/// `s` has one of the two shapes of a due date, `dddd-dd-dd` and
/// `dddd-dd-dd dd:dd`, where each `d` is a digit.
pub open spec fn is_canonical_due(s: Seq<char>) -> bool {
    &&& has_date_shape(s)
    &&& s.len() == 10 || (s.len() == 16 && s[10] == ' ' && is_digit(s[11]) && is_digit(s[12])
        && s[13] == ':' && is_digit(s[14]) && is_digit(s[15]))
}

/// The text of a valid date and time is of canonical shape.
pub proof fn lemma_due_text_canonical(date: Date, time: TimeOfDay)
    requires
        date.valid(),
        time.valid(),
    ensures
        is_canonical_due(due_text(date, time)),
{
    let y = date.year as int;
    assert(is_digit(digit_char(y / 100 / 10)) && is_digit(digit_char(y / 100 % 10)));
    assert(is_digit(digit_char(y % 100 / 10)) && is_digit(digit_char(y % 100 % 10)));
    let s = due_text(date, time);
    let d = date_text(date);
    assert(d.len() == 10);
    assert(d[0] == digit_char(y / 100 / 10));
    assert(d[1] == digit_char(y / 100 % 10));
    assert(d[2] == digit_char(y % 100 / 10));
    assert(d[3] == digit_char(y % 100 % 10));
    assert(d[5] == digit_char(date.month as int / 10));
    assert(d[6] == digit_char(date.month as int % 10));
    assert(d[8] == digit_char(date.day as int / 10));
    assert(d[9] == digit_char(date.day as int % 10));
    assert(has_date_shape(d));
    if time.hour != 0 || time.minute != 0 {
        assert(s.len() == 16);
        assert forall|i: int| 0 <= i < 10 implies s[i] == d[i] by {}
        assert(s[11] == digit_char(time.hour as int / 10));
        assert(s[12] == digit_char(time.hour as int % 10));
        assert(s[14] == digit_char(time.minute as int / 10));
        assert(s[15] == digit_char(time.minute as int % 10));
    }
}

/// The due date that a date and a time of day make.
pub fn format_due(date: &Date, time: &TimeOfDay) -> (r: String)
    requires
        date.valid(),
        time.valid(),
    ensures
        r@ == due_text(*date, *time),
        is_canonical_due(r@),
{
    let mut out: Vec<char> = Vec::new();
    push_four_digits(&mut out, date.year as u32);
    out.push('-');
    push_two_digits(&mut out, date.month);
    out.push('-');
    push_two_digits(&mut out, date.day);
    assert(out@ =~= date_text(*date));
    if time.hour != 0 || time.minute != 0 {
        out.push(' ');
        push_two_digits(&mut out, time.hour);
        out.push(':');
        push_two_digits(&mut out, time.minute);
        assert(out@ =~= due_text(*date, *time));
    }
    proof {
        lemma_due_text_canonical(*date, *time);
    }
    string_of(&out)
}

/// `a` comes before `b` in the order of a dictionary, characters compared by
/// their code points: the order of `str`.
pub open spec fn text_before(a: Seq<char>, b: Seq<char>) -> bool
    decreases a.len(),
{
    if b.len() == 0 {
        false
    } else if a.len() == 0 {
        true
    } else if a[0] != b[0] {
        (a[0] as u32) < (b[0] as u32)
    } else {
        text_before(a.drop_first(), b.drop_first())
    }
}

/// A due date is overdue on the day `today` where its text comes before the
/// text of the day: a canonical due date, where its day is past.
pub open spec fn overdue(due: Seq<char>, today: Date) -> bool {
    text_before(due, date_text(today))
}

/// Whether `a` comes before `b` in the order of a dictionary.
pub fn comes_before(a: &Vec<char>, b: &Vec<char>) -> (r: bool)
    ensures
        r == text_before(a@, b@),
{
    let mut i: usize = 0;
    assert(a@.skip(0) =~= a@ && b@.skip(0) =~= b@);
    while i < a.len() && i < b.len()
        invariant
            i <= a.len(),
            i <= b.len(),
            text_before(a@, b@) == text_before(a@.skip(i as int), b@.skip(i as int)),
        decreases a.len() - i,
    {
        if a[i] != b[i] {
            return (a[i] as u32) < (b[i] as u32);
        }
        assert(a@.skip(i as int).drop_first() =~= a@.skip(i + 1));
        assert(b@.skip(i as int).drop_first() =~= b@.skip(i + 1));
        i += 1;
    }
    i < b.len()
}

/// Whether the due date `due` is overdue on the day `today`.
pub fn is_overdue(due: &str, today: &Date) -> (r: bool)
    requires
        today.valid(),
    ensures
        r == overdue(due@, *today),
{
    let mut day: Vec<char> = Vec::new();
    push_four_digits(&mut day, today.year as u32);
    day.push('-');
    push_two_digits(&mut day, today.month);
    day.push('-');
    push_two_digits(&mut day, today.day);
    assert(day@ =~= date_text(*today));
    comes_before(&chars_of(due), &day)
}

/// Whether `c` is one of the ten digits.
pub fn digit_at(text: &Vec<char>, at: usize) -> (r: bool)
    requires
        at < text.len(),
    ensures
        r == is_digit(text@[at as int]),
{
    let code: u32 = text[at] as u32;
    '0' as u32 <= code && code <= '9' as u32
}

/// Whether `text` has one of the two shapes of a due date.
pub fn is_canonical(text: &Vec<char>) -> (r: bool)
    ensures
        r == is_canonical_due(text@),
{
    let n = text.len();
    if n != 10 && n != 16 {
        return false;
    }
    let date_ok = digit_at(text, 0) && digit_at(text, 1) && digit_at(text, 2) && digit_at(text, 3)
        && text[4] == '-' && digit_at(text, 5) && digit_at(text, 6) && text[7] == '-' && digit_at(
        text,
        8,
    ) && digit_at(text, 9);
    if !date_ok {
        return false;
    }
    if n == 10 {
        return true;
    }
    text[10] == ' ' && digit_at(text, 11) && digit_at(text, 12) && text[13] == ':' && digit_at(
        text,
        14,
    ) && digit_at(text, 15)
}

} // verus!
