//! Times of day written in a text: `3pm`, `10:30 AM`, `at 7 pm`, `22:15`, `14h`.
//!
//! Six patterns are tried in a fixed order. Finding where a pattern stands in
//! a text is the work of the `regex` crate; what the groups of a match say,
//! and which pattern wins, is decided here.

use crate::calendar::TimeOfDay;
use crate::digits::{is_digit, number_of, parse_number};
use crate::text::{chars_of, contains, lemma_contains_char};
use crate::words::{lowercase, to_lowercase};
use vstd::prelude::*;

verus! {

/// The number of patterns.
pub const PATTERN_COUNT: usize = 6;

/// The pattern of rank `k`, in the syntax of the `regex` crate: a time with
/// minutes and AM or PM; an hour and AM or PM; the same two after `at`; a bare
/// `H:MM`; an hour and `h`. AM and PM are taken in whatever case.
pub open spec fn pattern(k: int) -> Seq<char> {
    if k == 0 {
        r"\b(\d{1,2}):(\d{2})\s*((?i:am|pm))\b"@
    } else if k == 1 {
        r"\b(\d{1,2})\s*((?i:am|pm))\b"@
    } else if k == 2 {
        r"at\s+(\d{1,2}):(\d{2})\s*((?i:am|pm))\b"@
    } else if k == 3 {
        r"at\s+(\d{1,2})\s*((?i:am|pm))\b"@
    } else if k == 4 {
        r"\b(\d{1,2}):(\d{2})\b"@
    } else {
        r"\b(\d{1,2})h\b"@
    }
}

/// Whether the second group of the pattern of rank `k` holds minutes.
pub open spec fn with_minutes(k: int) -> bool {
    k == 0 || k == 2 || k == 4
}

/// What `regex::Regex::captures` finds of `pattern` in `text`: nothing where
/// the pattern is not one or stands nowhere in the text; else, for the
/// leftmost match, the text of each group, the whole match first, a group
/// that took no part being `None`.
pub uninterp spec fn regex_captures(pattern: Seq<char>, text: Seq<char>) -> Option<
    Seq<Option<Seq<char>>>,
>;

/// What holds of the groups of every match: the whole match is there and
/// stands in the text, and each group that took part stands in the whole match.
pub open spec fn groups_within(text: Seq<char>, groups: Seq<Option<Seq<char>>>) -> bool {
    &&& groups.len() > 0
    &&& groups[0] matches Some(whole)
    &&& contains(text, whole)
    &&& forall|i: int|
        0 <= i < groups.len() ==> (#[trigger] groups[i] matches Some(part) ==> contains(
            groups[0]->0,
            part,
        ))
}

/// `regex::Regex::new` and `regex::Regex::captures`: the groups of the
/// leftmost match of `pattern` in `text`, each as the text it matched. Group 0
/// is the whole match, a part of `text`; the other groups are parts of it.
#[verifier::external_body]
pub(crate) fn captures(pattern: &str, text: &str) -> (r: Option<Vec<Option<String>>>)
    ensures
        r.deep_view() == regex_captures(pattern@, text@),
        r matches Some(groups) ==> groups_within(text@, groups.deep_view()),
{
    let re = regex::Regex::new(pattern).ok()?;
    let found = re.captures(text)?;
    Some(found.iter().map(|m| m.map(|m| m.as_str().to_string())).collect())
}

/// What one pattern makes of a text.
#[derive(Debug, PartialEq, Eq)]
pub enum Reading {
    /// The pattern stands nowhere, or what stands there is no time of day.
    Nothing,
    /// The pattern stands there, with an hour or a minute that is no number.
    Unreadable,
    /// A time of day, and the text that wrote it.
    Time(TimeOfDay, String),
}

/// A `Reading` with its text as a sequence of characters.
pub enum ReadingModel {
    Nothing,
    Unreadable,
    Time(TimeOfDay, Seq<char>),
}

impl View for Reading {
    type V = ReadingModel;

    open spec fn view(&self) -> ReadingModel {
        match self {
            Reading::Nothing => ReadingModel::Nothing,
            Reading::Unreadable => ReadingModel::Unreadable,
            Reading::Time(time, matched) => ReadingModel::Time(*time, matched@),
        }
    }
}

/// The groups that a reading needs are there: the whole match, the hour, and
/// the minutes where the pattern has them.
pub open spec fn groups_fit(groups: Seq<Option<Seq<char>>>, minutes: bool) -> bool {
    &&& groups.len() >= 2
    &&& groups[0] is Some
    &&& groups[1] is Some
    &&& minutes ==> groups.len() >= 3 && groups[2] is Some
}

/// The half of the day that a time is said to be in.
#[derive(Clone, Copy, Debug, PartialEq, Eq, Structural)]
pub enum Half {
    /// AM was written.
    Am,
    /// PM was written.
    Pm,
    /// Neither was written.
    Unsaid,
}

/// The half of the day that the groups tell of: that of the group after the
/// numbers, PM where it holds a `p` once in lower case, AM where it holds
/// none; unsaid where there is no such group or it took no part.
pub open spec fn half_of(groups: Seq<Option<Seq<char>>>, minutes: bool) -> Half {
    let at: int = if minutes {
        3
    } else {
        2
    };
    if at < groups.len() && groups[at] is Some {
        if lowercase(groups[at]->0).contains('p') {
            Half::Pm
        } else {
            Half::Am
        }
    } else {
        Half::Unsaid
    }
}

/// The hour of the day that an hour on a clock face is: 12 more with PM, but
/// for 12 itself; 0 for 12 with AM; else the hour as it is.
pub open spec fn hour_of_day(hour: int, half: Half) -> int {
    match half {
        Half::Pm => if hour != 12 {
            hour + 12
        } else {
            hour
        },
        Half::Am => if hour == 12 {
            0
        } else {
            hour
        },
        Half::Unsaid => hour,
    }
}

/// The hour of the day, where it is one of the 24.
pub open spec fn hour_if_any(hour: int, half: Half) -> Option<u32> {
    if hour_of_day(hour, half) < 24 {
        Some(hour_of_day(hour, half) as u32)
    } else {
        None
    }
}

/// What the groups of a match say.
pub open spec fn reading_of(groups: Seq<Option<Seq<char>>>, minutes: bool) -> ReadingModel {
    match number_of(groups[1]->0) {
        None => ReadingModel::Unreadable,
        Some(hour) => {
            let minute = if minutes {
                number_of(groups[2]->0)
            } else {
                Some(0u32)
            };
            match minute {
                None => ReadingModel::Unreadable,
                Some(minute) => {
                    let hour24 = hour_of_day(hour as int, half_of(groups, minutes));
                    if hour24 < 24 && minute < 60 {
                        ReadingModel::Time(
                            TimeOfDay { hour: hour24 as u32, minute },
                            groups[0]->0,
                        )
                    } else {
                        ReadingModel::Nothing
                    }
                },
            }
        },
    }
}

/// What the pattern of rank `k` makes of `text`.
pub open spec fn pattern_reading(text: Seq<char>, k: int) -> ReadingModel {
    match regex_captures(pattern(k), text) {
        Some(groups) => if groups_fit(groups, with_minutes(k)) {
            reading_of(groups, with_minutes(k))
        } else {
            ReadingModel::Nothing
        },
        None => ReadingModel::Nothing,
    }
}

/// The time of day that the patterns from rank `k` on find in `text`: that of
/// the first pattern that reads a time, unless an earlier one was unreadable.
pub open spec fn time_in_from(text: Seq<char>, k: int) -> Option<(TimeOfDay, Seq<char>)>
    decreases PATTERN_COUNT - k,
{
    if k < 0 || k >= PATTERN_COUNT {
        None
    } else {
        match pattern_reading(text, k) {
            ReadingModel::Time(time, matched) => Some((time, matched)),
            ReadingModel::Unreadable => None,
            ReadingModel::Nothing => time_in_from(text, k + 1),
        }
    }
}

/// The time of day written in `text`, with the text that wrote it.
pub open spec fn time_in(text: Seq<char>) -> Option<(TimeOfDay, Seq<char>)> {
    time_in_from(text, 0)
}

/// A time that was found is a time of day.
pub proof fn lemma_time_in_valid(text: Seq<char>, k: int)
    ensures
        time_in_from(text, k) matches Some(found) ==> found.0.valid(),
    decreases PATTERN_COUNT - k,
{
    if 0 <= k < PATTERN_COUNT {
        lemma_time_in_valid(text, k + 1);
    }
}

/// The pattern of rank `k`.
pub fn pattern_text(k: usize) -> (r: &'static str)
    requires
        k < PATTERN_COUNT,
    ensures
        r@ == pattern(k as int),
{
    if k == 0 {
        r"\b(\d{1,2}):(\d{2})\s*((?i:am|pm))\b"
    } else if k == 1 {
        r"\b(\d{1,2})\s*((?i:am|pm))\b"
    } else if k == 2 {
        r"at\s+(\d{1,2}):(\d{2})\s*((?i:am|pm))\b"
    } else if k == 3 {
        r"at\s+(\d{1,2})\s*((?i:am|pm))\b"
    } else if k == 4 {
        r"\b(\d{1,2}):(\d{2})\b"
    } else {
        r"\b(\d{1,2})h\b"
    }
}

/// Whether the second group of the pattern of rank `k` holds minutes.
pub fn has_minutes(k: usize) -> (r: bool)
    ensures
        r == with_minutes(k as int),
{
    k == 0 || k == 2 || k == 4
}

/// Whether the groups that a reading needs are there.
pub fn fits(groups: &Vec<Option<String>>, minutes: bool) -> (r: bool)
    ensures
        r == groups_fit(groups.deep_view(), minutes),
{
    groups.len() >= 2 && groups[0].is_some() && groups[1].is_some() && (!minutes || (groups.len()
        >= 3 && groups[2].is_some()))
}

/// Whether `c` is among `chars`.
pub fn has_char(chars: &Vec<char>, c: char) -> (r: bool)
    ensures
        r == chars@.contains(c),
{
    let mut i: usize = 0;
    while i < chars.len()
        invariant
            i <= chars.len(),
            forall|j: int| 0 <= j < i ==> chars@[j] != c,
        decreases chars.len() - i,
    {
        if chars[i] == c {
            return true;
        }
        i += 1;
    }
    false
}

/// The half of the day that the groups tell of.
pub fn read_half(groups: &Vec<Option<String>>, minutes: bool) -> (r: Half)
    ensures
        r == half_of(groups.deep_view(), minutes),
{
    let at: usize = if minutes {
        3
    } else {
        2
    };
    if at >= groups.len() {
        return Half::Unsaid;
    }
    match &groups[at] {
        Some(half) => {
            let lower = to_lowercase(half.as_str());
            if has_char(&chars_of(lower.as_str()), 'p') {
                Half::Pm
            } else {
                Half::Am
            }
        },
        None => Half::Unsaid,
    }
}

/// The hour of the day that the hour `hour` on a clock face is in the half
/// `half`, where it is one of the 24.
pub fn hour_on_clock(hour: u32, half: Half) -> (r: Option<u32>)
    ensures
        r == hour_if_any(hour as int, half),
{
    match half {
        Half::Pm => if hour == 12 {
            Some(12)
        } else if hour < 12 {
            Some(hour + 12)
        } else {
            None
        },
        Half::Am => if hour == 12 {
            Some(0)
        } else if hour < 24 {
            Some(hour)
        } else {
            None
        },
        Half::Unsaid => if hour < 24 {
            Some(hour)
        } else {
            None
        },
    }
}

/// The number written in the group `at`.
fn group_number(groups: &Vec<Option<String>>, at: usize) -> (r: Option<u32>)
    requires
        at < groups.len(),
        groups[at as int] is Some,
    ensures
        r == number_of(groups.deep_view()[at as int]->0),
{
    match &groups[at] {
        Some(digits) => parse_number(&chars_of(digits.as_str())),
        None => None,
    }
}

/// What the groups of a match say: the time of day, where hour and minute are
/// numbers and make one, with the text of the whole match.
pub fn read_groups(groups: &Vec<Option<String>>, minutes: bool) -> (r: Reading)
    requires
        groups_fit(groups.deep_view(), minutes),
    ensures
        r@ == reading_of(groups.deep_view(), minutes),
{
    let hour = match group_number(groups, 1) {
        Some(hour) => hour,
        None => { return Reading::Unreadable; },
    };
    let minute: u32 = if minutes {
        match group_number(groups, 2) {
            Some(minute) => minute,
            None => { return Reading::Unreadable; },
        }
    } else {
        0
    };
    let hour24 = match hour_on_clock(hour, read_half(groups, minutes)) {
        Some(hour24) => hour24,
        None => { return Reading::Nothing; },
    };
    match TimeOfDay::from_hm(hour24, minute) {
        Some(time) => match &groups[0] {
            Some(matched) => Reading::Time(time, matched.clone()),
            None => Reading::Nothing,
        },
        None => Reading::Nothing,
    }
}

/// A digit stands in `text`.
pub open spec fn has_digit(text: Seq<char>) -> bool {
    exists|i: int| 0 <= i < text.len() && is_digit(#[trigger] text[i])
}

/// Where the hour of a match is a number, a digit stands in the text, and the
/// whole match is not empty.
pub proof fn lemma_hour_stands_in_text(text: Seq<char>, groups: Seq<Option<Seq<char>>>)
    requires
        groups_within(text, groups),
        groups.len() >= 2,
        groups[1] is Some,
        number_of(groups[1]->0) is Some,
    ensures
        has_digit(text),
        (groups[0]->0).len() > 0,
{
    let whole = groups[0]->0;
    let hour = groups[1]->0;
    assert(contains(whole, hour));
    let k: int = if hour[0] == '+' {
        1
    } else {
        0
    };
    assert(0 <= k < hour.len() && is_digit(hour[k])) by {
        if k == 1 {
            assert(hour.drop_first().len() > 0);
            assert(hour.drop_first()[0] == hour[1]);
            assert(is_digit(hour.drop_first()[0]));
        } else {
            assert(is_digit(hour[0]));
        }
    }
    lemma_contains_char(whole, hour, k);
    let a = choose|a: int| 0 <= a < whole.len() && whole[a] == hour[k];
    lemma_contains_char(text, whole, a);
    let i = choose|i: int| 0 <= i < text.len() && text[i] == whole[a];
    assert(is_digit(text[i]));
}

/// The time of day written in `text`, with the text that wrote it: what the
/// first of the six patterns reads that stands in the text with a time of
/// day. An hour or a minute that is no number ends the search with nothing.
pub fn extract_time_from_text(text: &str) -> (r: Option<(TimeOfDay, String)>)
    ensures
        match r {
            Some((time, matched)) => time_in(text@) == Some((time, matched@)) && time.valid()
                && contains(text@, matched@) && matched@.len() > 0 && has_digit(text@),
            None => time_in(text@) is None,
        },
{
    let mut k: usize = 0;
    while k < PATTERN_COUNT
        invariant
            k <= PATTERN_COUNT,
            time_in(text@) == time_in_from(text@, k as int),
        decreases PATTERN_COUNT - k,
    {
        let minutes = has_minutes(k);
        match captures(pattern_text(k), text) {
            Some(groups) => if fits(&groups, minutes) {
                match read_groups(&groups, minutes) {
                    Reading::Time(time, matched) => {
                        proof {
                            lemma_time_in_valid(text@, k as int);
                            lemma_hour_stands_in_text(text@, groups.deep_view());
                        }
                        return Some((time, matched));
                    },
                    Reading::Unreadable => {
                        return None;
                    },
                    Reading::Nothing => {},
                }
            },
            None => {},
        }
        k += 1;
    }
    None
}

} // verus!
