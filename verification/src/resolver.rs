//! Dates that a text names relative to the present: `today`, `tomorrow`, a
//! time of day alone, the name of a day of the week.

use crate::calendar::{
    date_plus_days, lemma_plus_days_valid, weekday_index, weekday_of, Date, Moment, TimeOfDay,
};
use crate::text::{chars_of, contains, has};
use crate::times::{extract_time_from_text, lemma_time_in_valid, time_in};
use crate::words::{lowercase, to_lowercase};
use vstd::prelude::*;

verus! {

/// The English name of the day of the week `k`, Monday being 0, in lower case.
pub open spec fn weekday_name(k: int) -> Seq<char> {
    if k == 0 {
        "monday"@
    } else if k == 1 {
        "tuesday"@
    } else if k == 2 {
        "wednesday"@
    } else if k == 3 {
        "thursday"@
    } else if k == 4 {
        "friday"@
    } else if k == 5 {
        "saturday"@
    } else {
        "sunday"@
    }
}

/// The first day of the week from `k` on, in the order Monday to Sunday,
/// whose name stands in `lower`.
pub open spec fn weekday_named_from(lower: Seq<char>, k: int) -> Option<int>
    decreases 7 - k,
{
    if k < 0 || k >= 7 {
        None
    } else if contains(lower, weekday_name(k)) {
        Some(k)
    } else {
        weekday_named_from(lower, k + 1)
    }
}

/// The first day of the week, in the order Monday to Sunday, whose name stands
/// in `lower`.
pub open spec fn weekday_named(lower: Seq<char>) -> Option<int> {
    weekday_named_from(lower, 0)
}

/// The number of days from a day of the week to the next `target`, none where
/// the day is a `target` itself.
pub open spec fn days_until(target: int, current: int) -> int {
    (target - current + 7) % 7
}

/// The default time of a day named `today`.
pub open spec fn end_of_day() -> TimeOfDay {
    TimeOfDay { hour: 23, minute: 59 }
}

/// The default time of any other day.
pub open spec fn morning() -> TimeOfDay {
    TimeOfDay { hour: 9, minute: 0 }
}

/// The date and the time of day that `text` names at the moment `now`, with
/// the part of the text that named them.
///
/// The rules, the first that applies: `today` in the text, in whatever case,
/// is today, at the time written in the lower-case text or at 23:59;
/// `tomorrow` is the day after, at the time written or at 09:00; a time of day
/// alone is today if it is still to come, tomorrow if it is not; the name of a
/// day of the week is the next such day, today if today is one, at 09:00 (a
/// time of day beside it has fallen under the rule before).
/// What named the date is the text of the time where one was read, else the
/// word.
pub open spec fn resolve(text: Seq<char>, now: Moment) -> Option<(Date, TimeOfDay, Seq<char>)> {
    let lower = lowercase(text);
    resolved(
        now,
        contains(lower, "today"@),
        contains(lower, "tomorrow"@),
        time_in(lower),
        time_in(text),
        weekday_named(lower),
        weekday_of(now.date),
    )
}

/// The rules of `resolve`, on what was found in a text: whether `today` and
/// `tomorrow` stand in it, the time of day in its lower-case form and in the
/// text as typed, the day of the week that it names, and the day of the week
/// `current` of today.
pub open spec fn resolved(
    now: Moment,
    today: bool,
    tomorrow: bool,
    time_lower: Option<(TimeOfDay, Seq<char>)>,
    time_typed: Option<(TimeOfDay, Seq<char>)>,
    weekday: Option<int>,
    current: int,
) -> Option<(Date, TimeOfDay, Seq<char>)> {
    if today {
        match time_lower {
            Some((time, matched)) => Some((now.date, time, matched)),
            None => Some((now.date, end_of_day(), "today"@)),
        }
    } else if tomorrow {
        match time_lower {
            Some((time, matched)) => Some((now.date.plus_days(1), time, matched)),
            None => Some((now.date.plus_days(1), morning(), "tomorrow"@)),
        }
    } else {
        match time_typed {
            Some((time, matched)) => if time.not_after(now.time) {
                Some((now.date.plus_days(1), time, matched))
            } else {
                Some((now.date, time, matched))
            },
            None => match weekday {
                Some(target) => Some(
                    (
                        now.date.plus_days(days_until(target, current) as nat),
                        morning(),
                        weekday_name(target),
                    ),
                ),
                None => None,
            },
        }
    }
}

/// Whatever is resolved is a date of a four-digit year and a time of day.
pub proof fn lemma_resolve_valid(text: Seq<char>, now: Moment)
    requires
        now.wf(),
    ensures
        resolve(text, now) matches Some(found) ==> found.0.valid() && found.1.valid(),
{
    lemma_time_in_valid(lowercase(text), 0);
    lemma_time_in_valid(text, 0);
    lemma_plus_days_valid(now.date, 0);
    lemma_plus_days_valid(now.date, 1);
    match weekday_named(lowercase(text)) {
        Some(target) => {
            lemma_weekday_named_range(lowercase(text), 0);
            lemma_plus_days_valid(now.date, days_until(target, weekday_of(now.date)) as nat);
        },
        None => {},
    }
}

/// A day of the week that was named is one of the seven.
pub proof fn lemma_weekday_named_range(lower: Seq<char>, k: int)
    ensures
        weekday_named_from(lower, k) matches Some(target) ==> k <= target < 7,
    decreases 7 - k,
{
    if 0 <= k < 7 {
        lemma_weekday_named_range(lower, k + 1);
    }
}

/// A text with `tomorrow` in it, without `today` and with no time of day in
/// its lower-case form, names the day after today at 09:00.
pub proof fn lemma_tomorrow_at_nine(text: Seq<char>, now: Moment)
    requires
        contains(lowercase(text), "tomorrow"@),
        !contains(lowercase(text), "today"@),
        time_in(lowercase(text)) is None,
    ensures
        resolve(text, now) == Some((now.date.plus_days(1), morning(), "tomorrow"@)),
        morning() == (TimeOfDay { hour: 9, minute: 0 }),
{
}

/// A text with a time of day that is still to come, and neither `today` nor
/// `tomorrow` in it, names today.
pub proof fn lemma_time_to_come_is_today(text: Seq<char>, now: Moment)
    requires
        time_in(text) matches Some(found) && !found.0.not_after(now.time),
        !contains(lowercase(text), "today"@),
        !contains(lowercase(text), "tomorrow"@),
    ensures
        resolve(text, now) matches Some(found) && found.0 == now.date && Some((found.1, found.2))
            == time_in(text),
{
}

/// A text with a time of day that is now or has passed, and neither `today`
/// nor `tomorrow` in it, names the day after today.
pub proof fn lemma_time_passed_is_tomorrow(text: Seq<char>, now: Moment)
    requires
        time_in(text) matches Some(found) && found.0.not_after(now.time),
        !contains(lowercase(text), "today"@),
        !contains(lowercase(text), "tomorrow"@),
    ensures
        resolve(text, now) matches Some(found) && found.0 == now.date.plus_days(1) && Some(
            (found.1, found.2),
        ) == time_in(text),
{
}

/// The English name of the day of the week `k`.
pub fn weekday_text(k: u32) -> (r: &'static str)
    requires
        k < 7,
    ensures
        r@ == weekday_name(k as int),
{
    if k == 0 {
        "monday"
    } else if k == 1 {
        "tuesday"
    } else if k == 2 {
        "wednesday"
    } else if k == 3 {
        "thursday"
    } else if k == 4 {
        "friday"
    } else if k == 5 {
        "saturday"
    } else {
        "sunday"
    }
}

/// Whether the word `word` stands in `hay`.
pub fn has_word(hay: &Vec<char>, word: &str) -> (r: bool)
    ensures
        r == contains(hay@, word@),
{
    has(hay, &chars_of(word))
}

/// The first day of the week, Monday to Sunday, whose name stands in `lower`.
pub fn find_weekday(lower: &Vec<char>) -> (r: Option<u32>)
    ensures
        match r {
            Some(target) => weekday_named(lower@) == Some(target as int) && target < 7,
            None => weekday_named(lower@) is None,
        },
{
    let mut k: u32 = 0;
    while k < 7
        invariant
            k <= 7,
            weekday_named(lower@) == weekday_named_from(lower@, k as int),
        decreases 7 - k,
    {
        if has_word(lower, weekday_text(k)) {
            return Some(k);
        }
        k += 1;
    }
    None
}

/// The next day that is the day of the week `target`, today where today is one.
pub fn get_next_weekday(now: &Moment, target: u32) -> (r: Date)
    requires
        now.wf(),
        target < 7,
    ensures
        r == now.date.plus_days(days_until(target as int, weekday_of(now.date)) as nat),
        r.valid(),
        weekday_of(r) == target,
        days_until(target as int, weekday_of(now.date)) < 7,
{
    let current = weekday_index(&now.date);
    let days = (target + 7 - current) % 7;
    proof {
        lemma_plus_days_valid(now.date, days as nat);
        assert(weekday_of(now.date.plus_days(days as nat)) == (current + days) % 7);
    }
    date_plus_days(&now.date, days)
}

/// The view of a time of day that may have been read, with its text.
pub open spec fn read_view(time: Option<(TimeOfDay, String)>) -> Option<(TimeOfDay, Seq<char>)> {
    match time {
        Some((time, matched)) => Some((time, matched@)),
        None => None,
    }
}

/// The number of a day of the week that may have been named.
pub open spec fn day_view(weekday: Option<u32>) -> Option<int> {
    match weekday {
        Some(day) => Some(day as int),
        None => None,
    }
}

/// The date and the time of day that the rules give at the moment `now`, on
/// what was found in a text: whether `today` and `tomorrow` stand in it, the
/// time of day read in its lower-case form and in the text as typed, the day
/// of the week that it names, and the day of the week `current` of today.
pub fn resolve_from(
    now: &Moment,
    today: bool,
    tomorrow: bool,
    time_lower: Option<(TimeOfDay, String)>,
    time_typed: Option<(TimeOfDay, String)>,
    weekday: Option<u32>,
    current: u32,
) -> (r: Option<(Date, TimeOfDay, String)>)
    requires
        now.wf(),
        current < 7,
        weekday matches Some(day) ==> day < 7,
    ensures
        match r {
            Some((date, time, matched)) => resolved(
                *now,
                today,
                tomorrow,
                read_view(time_lower),
                read_view(time_typed),
                day_view(weekday),
                current as int,
            ) == Some((date, time, matched@)) && date.valid(),
            None => resolved(
                *now,
                today,
                tomorrow,
                read_view(time_lower),
                read_view(time_typed),
                day_view(weekday),
                current as int,
            ) is None,
        },
{
    proof {
        lemma_plus_days_valid(now.date, 0);
        lemma_plus_days_valid(now.date, 1);
    }
    if today {
        return match time_lower {
            Some((time, matched)) => Some((now.date, time, matched)),
            None => Some((now.date, TimeOfDay { hour: 23, minute: 59 }, "today".to_string())),
        };
    }
    if tomorrow {
        let day_after = date_plus_days(&now.date, 1);
        return match time_lower {
            Some((time, matched)) => Some((day_after, time, matched)),
            None => Some((day_after, TimeOfDay { hour: 9, minute: 0 }, "tomorrow".to_string())),
        };
    }
    if let Some((time, matched)) = time_typed {
        let date = if time.is_not_after(&now.time) {
            date_plus_days(&now.date, 1)
        } else {
            now.date
        };
        return Some((date, time, matched));
    }
    match weekday {
        Some(target) => {
            let days = (target + 7 - current) % 7;
            proof {
                lemma_plus_days_valid(now.date, days as nat);
            }
            Some(
                (
                    date_plus_days(&now.date, days),
                    TimeOfDay { hour: 9, minute: 0 },
                    weekday_text(target).to_string(),
                ),
            )
        },
        None => None,
    }
}

/// The date and the time of day that `input` names at the moment `now`, with
/// the part of the text that named them. A time of day is valid, and what
/// named the date is not empty.
pub fn parse_time_with_context(input: &str, now: &Moment) -> (r: Option<(Date, TimeOfDay, String)>)
    requires
        now.wf(),
    ensures
        match r {
            Some((date, time, matched)) => resolve(input@, *now) == Some((date, time, matched@))
                && date.valid() && time.valid(),
            None => resolve(input@, *now) is None,
        },
{
    let lower_text = to_lowercase(input);
    let lower = chars_of(lower_text.as_str());
    let today = has_word(&lower, "today");
    let tomorrow = !today && has_word(&lower, "tomorrow");
    // Each thing is sought only where a rule reads it.
    let time_lower = if today || tomorrow {
        extract_time_from_text(lower_text.as_str())
    } else {
        None
    };
    let time_typed = if today || tomorrow {
        None
    } else {
        extract_time_from_text(input)
    };
    let weekday = if today || tomorrow || time_typed.is_some() {
        None
    } else {
        find_weekday(&lower)
    };
    let current = weekday_index(&now.date);
    resolve_from(now, today, tomorrow, time_lower, time_typed, weekday, current)
}

} // verus!
