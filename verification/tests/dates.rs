use tasklist::calendar::{Date, Moment, TimeOfDay};
use tasklist::due::{format_due, is_overdue};
use tasklist::guard::is_english_safe;
use tasklist::resolver::{get_next_weekday, parse_time_with_context, resolve_from};
use tasklist::splitter::{extract_date_and_clean_description, split_with};
use tasklist::times::{extract_time_from_text, hour_on_clock, read_groups, read_half, Half, Reading};

fn wednesday_at(hour: u32, minute: u32) -> Moment {
    Moment {
        date: Date { year: 2024, month: 1, day: 3 },
        time: TimeOfDay { hour, minute },
        second: 30,
        utc_offset: 0,
    }
}

fn time(hour: u32, minute: u32) -> TimeOfDay {
    TimeOfDay { hour, minute }
}

fn groups(texts: &[Option<&str>]) -> Vec<Option<String>> {
    texts.iter().map(|t| t.map(|s| s.to_string())).collect()
}

#[test]
fn time_with_minutes_and_pm() {
    assert_eq!(
        extract_time_from_text("lunch 10:30 PM sharp"),
        Some((time(22, 30), "10:30 PM".to_string()))
    );
}

#[test]
fn time_without_minutes() {
    assert_eq!(extract_time_from_text("see you 3pm"), Some((time(15, 0), "3pm".to_string())));
    assert_eq!(extract_time_from_text("see you 7 AM"), Some((time(7, 0), "7 AM".to_string())));
}

#[test]
fn twelve_on_the_clock_face() {
    assert_eq!(extract_time_from_text("12am"), Some((time(0, 0), "12am".to_string())));
    assert_eq!(extract_time_from_text("12pm"), Some((time(12, 0), "12pm".to_string())));
    assert_eq!(extract_time_from_text("12:15 am"), Some((time(0, 15), "12:15 am".to_string())));
}

#[test]
fn the_hour_pattern_wins_over_the_at_pattern() {
    assert_eq!(extract_time_from_text("call at 1pm"), Some((time(13, 0), "1pm".to_string())));
}

#[test]
fn bare_24_hour_time() {
    assert_eq!(extract_time_from_text("train 22:15"), Some((time(22, 15), "22:15".to_string())));
}

#[test]
fn shorthand_hour() {
    assert_eq!(extract_time_from_text("standup 14h"), Some((time(14, 0), "14h".to_string())));
}

#[test]
fn invalid_time_falls_through_to_the_next_pattern() {
    // 25:00 is no time of day, so the bare pattern gives nothing; 9h is found.
    assert_eq!(extract_time_from_text("25:00 or 9h"), Some((time(9, 0), "9h".to_string())));
    // 13pm would be hour 25.
    assert_eq!(extract_time_from_text("13pm"), None);
}

#[test]
fn no_time_in_plain_text() {
    assert_eq!(extract_time_from_text("buy milk"), None);
    assert_eq!(extract_time_from_text(""), None);
}

#[test]
fn digits_that_are_no_number_end_the_search() {
    // An Arabic-Indic digit is a digit to the pattern and no number to the reader.
    assert_eq!(extract_time_from_text("\u{0663}pm and 5pm"), None);
}

#[test]
fn groups_are_read_as_the_rules_say() {
    assert_eq!(
        read_groups(&groups(&[Some("9:05 pm"), Some("9"), Some("05"), Some("pm")]), true),
        Reading::Time(time(21, 5), "9:05 pm".to_string())
    );
    assert_eq!(
        read_groups(&groups(&[Some("12 AM"), Some("12"), Some("AM")]), false),
        Reading::Time(time(0, 0), "12 AM".to_string())
    );
    assert_eq!(read_groups(&groups(&[Some("24:00"), Some("24"), Some("00")]), true), Reading::Nothing);
    assert_eq!(read_groups(&groups(&[Some("7:60"), Some("7"), Some("60")]), true), Reading::Nothing);
    assert_eq!(read_groups(&groups(&[Some("xh"), Some("x")]), false), Reading::Unreadable);
    assert_eq!(
        read_groups(&groups(&[Some("4294967296h"), Some("4294967296")]), false),
        Reading::Unreadable
    );
    assert_eq!(
        read_groups(&groups(&[Some("+7h"), Some("+7")]), false),
        Reading::Time(time(7, 0), "+7h".to_string())
    );
}

#[test]
fn today_defaults_to_the_end_of_the_day() {
    let now = wednesday_at(10, 0);
    assert_eq!(
        parse_time_with_context("finish report today", &now),
        Some((now.date, time(23, 59), "today".to_string()))
    );
}

#[test]
fn today_with_a_time_matches_the_time_only() {
    let now = wednesday_at(10, 0);
    assert_eq!(
        parse_time_with_context("Today at 8 PM", &now),
        Some((now.date, time(20, 0), "8 pm".to_string()))
    );
}

#[test]
fn tomorrow_defaults_to_nine() {
    let now = wednesday_at(10, 0);
    assert_eq!(
        parse_time_with_context("water plants TOMORROW", &now),
        Some((Date { year: 2024, month: 1, day: 4 }, time(9, 0), "tomorrow".to_string()))
    );
}

#[test]
fn today_wins_over_tomorrow() {
    let now = wednesday_at(10, 0);
    assert_eq!(
        parse_time_with_context("today or tomorrow", &now),
        Some((now.date, time(23, 59), "today".to_string()))
    );
}

#[test]
fn tomorrow_crosses_month_and_year() {
    let eve = Moment {
        date: Date { year: 2023, month: 12, day: 31 },
        time: time(10, 0),
        second: 0,
        utc_offset: 0,
    };
    assert_eq!(
        parse_time_with_context("party tomorrow", &eve),
        Some((Date { year: 2024, month: 1, day: 1 }, time(9, 0), "tomorrow".to_string()))
    );
    let leap = Moment {
        date: Date { year: 2024, month: 2, day: 28 },
        time: time(10, 0),
        second: 0,
        utc_offset: 0,
    };
    assert_eq!(
        parse_time_with_context("party tomorrow", &leap),
        Some((Date { year: 2024, month: 2, day: 29 }, time(9, 0), "tomorrow".to_string()))
    );
}

#[test]
fn a_time_to_come_is_today() {
    let now = wednesday_at(10, 0);
    assert_eq!(
        parse_time_with_context("dentist 10:01", &now),
        Some((now.date, time(10, 1), "10:01".to_string()))
    );
}

#[test]
fn a_time_that_is_now_or_passed_is_tomorrow() {
    let now = wednesday_at(10, 0);
    let tomorrow = Date { year: 2024, month: 1, day: 4 };
    assert_eq!(
        parse_time_with_context("dentist 10:00", &now),
        Some((tomorrow, time(10, 0), "10:00".to_string()))
    );
    assert_eq!(
        parse_time_with_context("dentist 9:59", &now),
        Some((tomorrow, time(9, 59), "9:59".to_string()))
    );
}

#[test]
fn call_at_1pm_when_it_is_two() {
    let now = wednesday_at(14, 0);
    assert_eq!(
        parse_time_with_context("call at 1pm", &now),
        Some((Date { year: 2024, month: 1, day: 4 }, time(13, 0), "1pm".to_string()))
    );
    assert_eq!(
        extract_date_and_clean_description("call at 1pm", &now),
        ("call at".to_string(), Some("2024-01-04 13:00".to_string()))
    );
}

#[test]
fn meeting_monday_on_a_wednesday() {
    let now = wednesday_at(10, 0);
    assert_eq!(
        parse_time_with_context("meeting monday", &now),
        Some((Date { year: 2024, month: 1, day: 8 }, time(9, 0), "monday".to_string()))
    );
    assert_eq!(
        extract_date_and_clean_description("meeting monday", &now),
        ("meeting".to_string(), Some("2024-01-08 09:00".to_string()))
    );
}

#[test]
fn the_day_of_the_week_of_today_is_today() {
    let now = wednesday_at(10, 0);
    assert_eq!(
        parse_time_with_context("lunch on Wednesday", &now),
        Some((now.date, time(9, 0), "wednesday".to_string()))
    );
    assert_eq!(get_next_weekday(&now, 2), now.date);
    assert_eq!(get_next_weekday(&now, 3), Date { year: 2024, month: 1, day: 4 });
    assert_eq!(get_next_weekday(&now, 1), Date { year: 2024, month: 1, day: 9 });
}

#[test]
fn the_first_day_in_the_order_of_the_week_wins() {
    let now = wednesday_at(10, 0);
    assert_eq!(
        parse_time_with_context("sunday or tuesday", &now),
        Some((Date { year: 2024, month: 1, day: 9 }, time(9, 0), "tuesday".to_string()))
    );
}

#[test]
fn nothing_to_resolve() {
    let now = wednesday_at(10, 0);
    assert_eq!(parse_time_with_context("buy milk", &now), None);
}

#[test]
fn call_mom_tomorrow_at_3pm() {
    let now = wednesday_at(10, 0);
    let (description, due) = extract_date_and_clean_description("call mom tomorrow at 3pm", &now);
    assert_eq!(due, Some("2024-01-04 15:00".to_string()));
    // What named the date is the text of the time: the words before it stay.
    assert_eq!(description, "call mom tomorrow at");
}

#[test]
fn tags_and_no_date() {
    let now = wednesday_at(10, 0);
    assert_eq!(
        extract_date_and_clean_description("buy milk #shopping #urgent", &now),
        ("buy milk #shopping #urgent".to_string(), None)
    );
}

#[test]
fn the_english_parser_is_asked_first() {
    let now = wednesday_at(10, 0);
    // The description is the input as it is.
    assert_eq!(
        extract_date_and_clean_description("next friday 8pm", &now),
        ("next friday 8pm".to_string(), Some("2024-01-05 20:00".to_string()))
    );
    assert_eq!(
        extract_date_and_clean_description("2024-03-15", &now),
        ("2024-03-15".to_string(), Some("2024-03-15".to_string()))
    );
}

#[test]
fn a_word_in_another_case_is_not_cut_out() {
    let now = wednesday_at(10, 0);
    assert_eq!(
        extract_date_and_clean_description("pay rent Tomorrow!", &now),
        ("pay rent Tomorrow!".to_string(), Some("2024-01-04 09:00".to_string()))
    );
}

#[test]
fn only_the_first_occurrence_is_cut_out() {
    let now = wednesday_at(10, 0);
    assert_eq!(
        extract_date_and_clean_description("gym 6pm not 6pm sharp", &now),
        ("gym not 6pm sharp".to_string(), Some("2024-01-03 18:00".to_string()))
    );
}

#[test]
fn a_text_not_for_the_english_parser_is_split_with_a_reading_handed_in() {
    let now = wednesday_at(10, 0);
    for input in ["\u{e9}\u{e9} tomorrow", "600000000 weeks"] {
        let chars: Vec<char> = input.chars().collect();
        assert!(!is_english_safe(&chars), "{:?}", input);
    }
    assert_eq!(
        split_with("\u{e9}\u{e9} tomorrow", &now, None),
        ("\u{e9}\u{e9}".to_string(), Some("2024-01-04 09:00".to_string()))
    );
    assert_eq!(split_with("600000000 weeks", &now, None), ("600000000 weeks".to_string(), None));
}

#[test]
fn split_with_takes_a_writable_reading() {
    let now = wednesday_at(10, 0);
    let reading = Some((Date { year: 2030, month: 2, day: 1 }, time(0, 0)));
    assert_eq!(
        split_with("whatever today", &now, reading),
        ("whatever today".to_string(), Some("2030-02-01".to_string()))
    );
    // A year of five digits has no canonical text: the reading is not taken.
    let far = Some((Date { year: 12000, month: 2, day: 1 }, time(0, 0)));
    assert_eq!(
        split_with("whatever today", &now, far),
        ("whatever".to_string(), Some("2024-01-03 23:59".to_string()))
    );
    assert_eq!(split_with("whatever", &now, None), ("whatever".to_string(), None));
}

#[test]
fn due_dates_are_written_in_canonical_form() {
    assert_eq!(format_due(&Date { year: 2024, month: 1, day: 4 }, &time(15, 0)), "2024-01-04 15:00");
    assert_eq!(format_due(&Date { year: 2024, month: 12, day: 31 }, &time(0, 0)), "2024-12-31");
    assert_eq!(format_due(&Date { year: 987, month: 6, day: 5 }, &time(0, 7)), "0987-06-05 00:07");
}

#[test]
fn a_due_date_is_overdue_after_its_day() {
    let day = Date { year: 2024, month: 1, day: 3 };
    assert!(is_overdue("2024-01-02", &day));
    assert!(is_overdue("2024-01-02 23:59", &day));
    assert!(is_overdue("2023-12-31", &day));
    assert!(!is_overdue("2024-01-03", &day));
    assert!(!is_overdue("2024-01-03 00:01", &day));
    assert!(!is_overdue("2024-01-04", &day));
    assert!(is_overdue("", &day));
}

#[test]
fn twelve_without_a_half_is_noon() {
    assert_eq!(extract_time_from_text("lunch 12:30"), Some((time(12, 30), "12:30".to_string())));
    assert_eq!(extract_time_from_text("12h"), Some((time(12, 0), "12h".to_string())));
    assert_eq!(extract_time_from_text("0:05"), Some((time(0, 5), "0:05".to_string())));
    assert_eq!(
        read_groups(&groups(&[Some("12:30"), Some("12"), Some("30")]), true),
        Reading::Time(time(12, 30), "12:30".to_string())
    );
    assert_eq!(
        read_groups(&groups(&[Some("12h"), Some("12")]), false),
        Reading::Time(time(12, 0), "12h".to_string())
    );
}

#[test]
fn the_half_of_the_day_is_read_in_whatever_case() {
    assert_eq!(extract_time_from_text("9:05 Pm"), Some((time(21, 5), "9:05 Pm".to_string())));
    assert_eq!(extract_time_from_text("at 7 pM"), Some((time(19, 0), "7 pM".to_string())));
    assert_eq!(extract_time_from_text("12 aM"), Some((time(0, 0), "12 aM".to_string())));
    assert_eq!(extract_time_from_text("3Am"), Some((time(3, 0), "3Am".to_string())));
    assert_eq!(read_half(&groups(&[Some("9 Pm"), Some("9"), Some("Pm")]), false), Half::Pm);
    assert_eq!(read_half(&groups(&[Some("9 aM"), Some("9"), Some("aM")]), false), Half::Am);
    assert_eq!(read_half(&groups(&[Some("9:05"), Some("9"), Some("05")]), true), Half::Unsaid);
    assert_eq!(read_half(&groups(&[Some("9h"), Some("9")]), false), Half::Unsaid);
    assert_eq!(read_half(&groups(&[Some("9:05"), Some("9"), Some("05"), None]), true), Half::Unsaid);
}

#[test]
fn the_hour_of_the_day_of_an_hour_on_the_clock() {
    assert_eq!(hour_on_clock(12, Half::Am), Some(0));
    assert_eq!(hour_on_clock(12, Half::Pm), Some(12));
    assert_eq!(hour_on_clock(12, Half::Unsaid), Some(12));
    assert_eq!(hour_on_clock(1, Half::Pm), Some(13));
    assert_eq!(hour_on_clock(11, Half::Pm), Some(23));
    assert_eq!(hour_on_clock(13, Half::Pm), None);
    assert_eq!(hour_on_clock(13, Half::Am), Some(13));
    assert_eq!(hour_on_clock(0, Half::Am), Some(0));
    assert_eq!(hour_on_clock(23, Half::Unsaid), Some(23));
    assert_eq!(hour_on_clock(24, Half::Unsaid), None);
    assert_eq!(hour_on_clock(24, Half::Am), None);
    assert_eq!(hour_on_clock(u32::MAX, Half::Pm), None);
}

#[test]
fn the_rules_on_what_was_found() {
    let now = wednesday_at(10, 0);
    let tomorrow = Date { year: 2024, month: 1, day: 4 };
    let at = |h: u32, m: u32, s: &str| Some((time(h, m), s.to_string()));
    assert_eq!(
        resolve_from(&now, true, true, at(8, 0, "8am"), at(9, 0, "9am"), Some(4), 2),
        Some((now.date, time(8, 0), "8am".to_string()))
    );
    assert_eq!(
        resolve_from(&now, true, false, None, at(9, 0, "9am"), None, 2),
        Some((now.date, time(23, 59), "today".to_string()))
    );
    assert_eq!(
        resolve_from(&now, false, true, at(8, 0, "8am"), None, Some(4), 2),
        Some((tomorrow, time(8, 0), "8am".to_string()))
    );
    assert_eq!(
        resolve_from(&now, false, true, None, at(11, 0, "11am"), None, 2),
        Some((tomorrow, time(9, 0), "tomorrow".to_string()))
    );
    assert_eq!(
        resolve_from(&now, false, false, at(8, 0, "8am"), at(10, 1, "10:01"), Some(4), 2),
        Some((now.date, time(10, 1), "10:01".to_string()))
    );
    assert_eq!(
        resolve_from(&now, false, false, None, at(10, 0, "10:00"), None, 2),
        Some((tomorrow, time(10, 0), "10:00".to_string()))
    );
    assert_eq!(
        resolve_from(&now, false, false, at(8, 0, "8am"), None, Some(0), 2),
        Some((Date { year: 2024, month: 1, day: 8 }, time(9, 0), "monday".to_string()))
    );
    assert_eq!(
        resolve_from(&now, false, false, None, None, Some(2), 2),
        Some((now.date, time(9, 0), "wednesday".to_string()))
    );
    assert_eq!(
        resolve_from(&now, false, false, None, None, Some(6), 0),
        Some((Date { year: 2024, month: 1, day: 9 }, time(9, 0), "sunday".to_string()))
    );
    assert_eq!(resolve_from(&now, false, false, at(8, 0, "8am"), None, None, 2), None);
}
