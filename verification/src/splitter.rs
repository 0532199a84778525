//! Splitting what a user typed into a description and a due date.
//!
//! The `chrono-english` crate is asked first, with the whole text. Where it
//! reads no date, the relative dates of this crate are tried, and what named
//! the date is cut out of the description.
//!
//! The rules are in `split_with`, which takes what the parser read. The
//! parser itself is called here only on a text that it reads without fault.

use crate::calendar::{Date, Moment, TimeOfDay};
use crate::guard::english_safe;
use crate::due::{due_text, format_due, is_canonical_due};
use crate::resolver::{parse_time_with_context, resolve};
use crate::text::{
    chars_of, contains, first_at, first_occurrence, lemma_least_occurrence, occurs_at,
    remove_first, string_of, without_first,
};
use crate::words::{
    collapse, collapse_spaces, lemma_collapse_len, lemma_trim_end_len, lemma_trim_start_len, trim,
    trim_start, trimmed,
};
use vstd::prelude::*;

verus! {

/// The date and time that `chrono_english::parse_date_string` reads in
/// `text`, in the American dialect, at the moment `now` of a zone that is
/// `now.utc_offset` seconds ahead of UTC; `None` where it reads no date.
pub uninterp spec fn english_date(text: Seq<char>, now: Moment) -> Option<(Date, TimeOfDay)>;

/// `chrono_english::parse_date_string` with `Dialect::Us`, on a
/// `chrono::DateTime<FixedOffset>` made of `now`: the date and the time of day,
/// to the minute, of what it returns, `None` where it returns an error.
///
/// The texts and moments that `requires` admits are such that no arithmetic,
/// slice or `unwrap` of the parser fails in the part of the text that it
/// reads. On a date that its arithmetic of months leaves off the calendar
/// the parser writes a line to the standard error stream and returns an error.
#[verifier::external_body]
pub(crate) fn parse_english(text: &str, now: &Moment) -> (r: Option<(Date, TimeOfDay)>)
    requires
        english_safe(text@),
        now.wf(),
    ensures
        r == english_date(text@, *now),
{
    let zone = chrono::FixedOffset::east_opt(now.utc_offset)?;
    let day = chrono::NaiveDate::from_ymd_opt(now.date.year, now.date.month, now.date.day)?;
    let clock = day.and_hms_opt(now.time.hour, now.time.minute, now.second)?;
    let base = chrono::TimeZone::from_local_datetime(&zone, &clock).single()?;
    let found = chrono_english::parse_date_string(text, base, chrono_english::Dialect::Us).ok()?;
    let year = chrono::Datelike::year(&found);
    Some((
        Date { year, month: chrono::Datelike::month(&found), day: chrono::Datelike::day(&found) },
        TimeOfDay { hour: chrono::Timelike::hour(&found), minute: chrono::Timelike::minute(&found) },
    ))
}

/// A reading that has a canonical text: a date of a four-digit year and a
/// time of day.
pub open spec fn writable(parsed: Option<(Date, TimeOfDay)>) -> bool {
    parsed matches Some(found) && found.0.valid() && found.1.valid()
}

/// The description left when `matched` named the date: `input` without the
/// first occurrence of `matched`, trimmed, doubled spaces collapsed. The
/// occurrence is sought as written, so a word typed in another case stays.
pub open spec fn cleaned(input: Seq<char>, matched: Seq<char>) -> Seq<char> {
    collapse_spaces(trimmed(without_first(input, matched)))
}

/// The description and the due date of `input` at the moment `now`, where the
/// English parser read `parsed`.
///
/// A writable reading of the parser is the due date, and the description is
/// the input as it is. Else what this crate resolves is the due date, and the
/// description is cleaned of what named it. Else there is no due date.
pub open spec fn split(input: Seq<char>, now: Moment, parsed: Option<(Date, TimeOfDay)>) -> (
    Seq<char>,
    Option<Seq<char>>,
) {
    match parsed {
        Some((date, time)) if writable(parsed) => (input, Some(due_text(date, time))),
        _ => match resolve(input, now) {
            Some((date, time, matched)) => (cleaned(input, matched), Some(due_text(date, time))),
            None => (input, None),
        },
    }
}

/// Cleaning makes progress: where what named the date stands in the input as
/// written, the description is shorter than the input by its length at least.
pub proof fn lemma_cleaning_shortens(input: Seq<char>, matched: Seq<char>)
    requires
        contains(input, matched),
    ensures
        cleaned(input, matched).len() + matched.len() <= input.len(),
{
    let at = first_occurrence(input, matched)->0;
    assert(first_at(input, matched, at)) by {
        let w = choose|k: int| occurs_at(input, matched, k);
        lemma_least_occurrence(input, matched, w);
    }
    let cut = without_first(input, matched);
    assert(cut.len() + matched.len() == input.len());
    lemma_trim_start_len(cut);
    lemma_trim_end_len(trim_start(cut));
    lemma_collapse_len(trimmed(cut));
}

/// The description and the due date of `input` at the moment `now`, where the
/// English parser read `parsed`.
pub fn split_with(input: &str, now: &Moment, parsed: Option<(Date, TimeOfDay)>) -> (r: (
    String,
    Option<String>,
))
    requires
        now.wf(),
    ensures
        (r.0@, r.1.deep_view()) == split(input@, *now, parsed),
        r.1 matches Some(due) ==> is_canonical_due(due@),
{
    if let Some((date, time)) = parsed {
        if date.is_valid() && time.hour < 24 && time.minute < 60 {
            return (input.to_string(), Some(format_due(&date, &time)));
        }
    }
    match parse_time_with_context(input, now) {
        Some((date, time, matched)) => {
            let cut = remove_first(&chars_of(input), &chars_of(matched.as_str()));
            let description = string_of(&collapse(&trim(&cut)));
            (description, Some(format_due(&date, &time)))
        },
        None => (input.to_string(), None),
    }
}

/// The description and the due date of `input` at the moment `now`: what
/// `split` makes of the reading of the English parser.
///
/// The parser stops the program on some texts, so it is asked only about a
/// text that `english_safe` admits; `is_english_safe` tells whether it does.
/// For any other text the reading is obtained elsewhere and handed to
/// `split_with`.
pub fn extract_date_and_clean_description(input: &str, now: &Moment) -> (r: (
    String,
    Option<String>,
))
    requires
        english_safe(input@),
        now.wf(),
    ensures
        (r.0@, r.1.deep_view()) == split(input@, *now, english_date(input@, *now)),
        r.1 matches Some(due) ==> is_canonical_due(due@),
{
    let parsed = parse_english(input, now);
    split_with(input, now, parsed)
}

} // verus!
