use tasklist::calendar::{Date, Moment, TimeOfDay};
use tasklist::due::is_canonical;
use tasklist::guard::is_english_safe;
use tasklist::splitter::{extract_date_and_clean_description, split_with};

fn at(year: i32, month: u32, day: u32, hour: u32, minute: u32, second: u32, utc_offset: i32) -> Moment {
    Moment { date: Date { year, month, day }, time: TimeOfDay { hour, minute }, second, utc_offset }
}

fn split_is_sound(input: &str, now: &Moment) {
    let chars: Vec<char> = input.chars().collect();
    let (description, due) = if is_english_safe(&chars) {
        extract_date_and_clean_description(input, now)
    } else {
        split_with(input, now, None)
    };
    if let Some(due) = due {
        let chars: Vec<char> = due.chars().collect();
        assert!(is_canonical(&chars), "{:?} gave {:?}", input, due);
    } else {
        assert_eq!(description, input);
    }
}

const WORDS: [&str; 16] = [
    "next", "tomorrow", "friday", "jan", "ago", "pm", "days", "weeks", "months", "h", "T", "0",
    "12", "31", "2024", "999999",
];

#[test]
fn pairs_of_words_are_split_without_fault() {
    let now = at(2024, 1, 31, 23, 59, 59, 0);
    for a in WORDS {
        for b in WORDS {
            split_is_sound(&format!("{} {}", a, b), &now);
        }
    }
}

#[test]
fn words_joined_by_marks_are_split_without_fault() {
    let now = at(2023, 2, 28, 0, 0, 0, 3600);
    for mark in [":", ".", "-", "/", ",", "+"] {
        for a in ["jan", "pm", "0", "12", "31", "2024", "999999"] {
            for b in ["fri", "am", "0", "12", "31", "99", "999999"] {
                split_is_sound(&format!("{}{}{}", a, mark, b), &now);
            }
        }
    }
}

#[test]
fn times_of_many_forms_are_split_without_fault() {
    let times = [
        "10:30:15.250", "10:30:15.", "10:30:15.x", "10:30:15. 5", "10:30:15.5e3", "10:30:15+02:00",
        "10:30:15-0230", "10:30:15 +999999:999999", "10:30:15Z", "10:30:15.123456Z", "10.30pm",
        "10.30 am", "T10:30", "25:00", "10:61", "10:30:61", "4294967295pm", "4294967296pm",
    ];
    for now in [at(0, 1, 1, 0, 0, 0, -86399), at(9998, 12, 31, 23, 59, 59, 86399)] {
        for date in ["", "today ", "next friday ", "2024-02-29 ", "999999 days "] {
            for time in times {
                split_is_sound(&format!("{}{}", date, time), &now);
            }
        }
    }
}

#[test]
fn dates_of_many_forms_are_split_without_fault() {
    let dates = [
        "last jan", "2024-02-30", "2024-13-01", "31/12/99", "12/31/2024", "999999 days",
        "999999 weeks", "999999 months", "999999 years", "-999999 years", "999999 years ago",
        "-999999 weeks", "1000000 days", "600000000 weeks", "4 July 2017", "July 4, 2017", "0",
        "0000-00-00", "feb 29", "30 feb", "31 jan", "last feb 29", "next 31/12", "1 month",
        "-1 month", "13 months ago",
    ];
    for now in [
        at(0, 1, 1, 0, 0, 0, -86399),
        at(9998, 12, 31, 23, 59, 59, 86399),
        at(2024, 2, 29, 12, 0, 0, 0),
        at(2023, 1, 31, 12, 0, 0, 0),
    ] {
        for date in dates {
            split_is_sound(date, &now);
            split_is_sound(&format!("{} 8pm and more", date), &now);
        }
    }
}

#[test]
fn texts_that_would_stop_the_parser_are_split_without_fault() {
    let now = at(2024, 1, 3, 10, 0, 0, 0);
    for input in [
        "\u{e9}t\u{e9}", "\u{e9}\u{e9}", "5 \u{e9}", "aa\u{e9} 5pm", "10:30:15.\u{0663}",
        "2000000000 weeks", "100000000 days", "4294967295 years", "10:00+99999999:00", "\0", "",
        " ", "\n\n\n", "'unclosed", "\"", "next", "last", "-", "- ", "--", "next next",
    ] {
        split_is_sound(input, &now);
    }
}

#[test]
fn an_offset_in_the_text_is_taken_against_the_local_zone() {
    // 10:00 two hours ahead of UTC is 09:00 one hour ahead of UTC.
    let now = at(2024, 1, 3, 10, 0, 0, 3600);
    assert_eq!(
        extract_date_and_clean_description("2024-03-15 10:00:00+02:00", &now),
        ("2024-03-15 10:00:00+02:00".to_string(), Some("2024-03-15 09:00".to_string()))
    );
}

#[test]
fn seconds_of_the_clock_carry_into_the_minute() {
    let now = at(2024, 1, 3, 10, 0, 45, 0);
    assert_eq!(
        extract_date_and_clean_description("30 sec", &now),
        ("30 sec".to_string(), Some("2024-01-03 10:01".to_string()))
    );
}

#[test]
fn a_full_stop_or_a_long_number_after_the_time_is_not_read() {
    let now = at(2024, 1, 3, 10, 0, 0, 0);
    assert_eq!(
        extract_date_and_clean_description("tomorrow 3pm. Call Bob", &now),
        ("tomorrow 3pm. Call Bob".to_string(), Some("2024-01-04 15:00".to_string()))
    );
    assert_eq!(
        extract_date_and_clean_description("July 4 3.30 pm. party", &now),
        ("July 4 3.30 pm. party".to_string(), Some("2024-07-04 15:30".to_string()))
    );
    assert_eq!(
        extract_date_and_clean_description("friday 8pm call 5551234567", &now),
        ("friday 8pm call 5551234567".to_string(), Some("2024-01-05 20:00".to_string()))
    );
}

#[test]
fn a_capital_that_grows_in_lower_case_is_read() {
    let now = at(2024, 1, 3, 10, 0, 0, 0);
    assert_eq!(
        extract_date_and_clean_description("FR\u{130}DAY 8pm", &now),
        ("FR\u{130}DAY 8pm".to_string(), Some("2024-01-05 20:00".to_string()))
    );
}

#[test]
fn what_follows_date_and_time_is_not_read() {
    let now = at(2024, 1, 3, 10, 0, 0, 0);
    assert_eq!(
        extract_date_and_clean_description("1 April 2025 10.30 pm \u{e9}", &now),
        ("1 April 2025 10.30 pm \u{e9}".to_string(), Some("2025-04-01 22:30".to_string()))
    );
    assert_eq!(
        extract_date_and_clean_description("friday 8pm caf\u{e9}", &now),
        ("friday 8pm caf\u{e9}".to_string(), Some("2024-01-05 20:00".to_string()))
    );
}

const ODD_WORDS: [&str; 20] = [
    "\u{e9}", "\u{e9}\u{e9}", "a\u{e9}", "ab\u{e9}", "abc\u{e9}", "_ab\u{e9}", "a1b\u{e9}",
    "5\u{e9}", "\u{c9}t\u{e9}", "\u{0663}", "\u{1f600}", "\u{a0}", "\u{2167}", "jan\u{e9}",
    "fri\u{1f600}\u{e9}\u{e9}", "day\u{212a}", "\u{212a}", "\u{130}", "'", "\"",
];

#[test]
fn odd_words_in_the_first_places_are_split_without_fault() {
    let now = at(2024, 1, 3, 10, 0, 0, 0);
    for odd in ODD_WORDS {
        for before in ["", "-", "- ", "next ", "last ", "5", "5 ", "-5 ", "- next 5 ", "next 5", "jan ", "T"] {
            split_is_sound(&format!("{}{}", before, odd), &now);
            split_is_sound(&format!("{}{} 8pm", before, odd), &now);
        }
    }
}

#[test]
fn odd_words_after_a_time_are_split_without_fault() {
    let now = at(2024, 1, 3, 10, 0, 0, 0);
    for odd in ODD_WORDS {
        for before in [
            "10:30:15.", "10:30:15.5", "10:30:15 ", "10:30:15+", "10:30:15+02", "10:30", "10.30",
            "10.30 ", "fri 10", "5 days ", "jan 5, ", "jan 5 ", "jan ", "2024-01-", "1/",
        ] {
            split_is_sound(&format!("{}{}", before, odd), &now);
            split_is_sound(&format!("{}{} x", before, odd), &now);
        }
    }
}

#[test]
fn quoted_texts_are_split_without_fault() {
    let now = at(2024, 1, 3, 10, 0, 0, 0);
    for input in [
        "jan 'x y' 10:30:15.x",
        "jan 'a b c d e f g h i j k l m n o p q r s t u v w' 10:30:15.x",
        "jan \"a b c d e f g h i j k l m n o p q r s t u v w\" 1234567 days",
        "jan '' 10:30:15.\u{0663}",
        "''\u{e9}\u{e9}",
        "' \u{e9}\u{e9}",
        "jan 'unclosed 10:30:15.x",
        "5 'days' \u{e9}",
        "next 'x' \u{e9}\u{e9}",
        "w w w w w w w w w w w w w w w w w w w 'q' 10:30:15.x",
    ] {
        split_is_sound(input, &now);
    }
}

#[test]
fn numbers_and_full_stops_in_many_places_are_split_without_fault() {
    let now = at(9998, 12, 31, 23, 59, 59, 0);
    let numbers = [
        "5", "999999", "1234567", "9999999", "10000000", "999999999", "4294967290", "4294967296",
        "8589934590", "99999999999999999999",
    ];
    let shapes = [
        "{}", "- {}", "next {}", "{} days", "{} weeks ago", "-{} months", "{} years", "{}pm",
        "{} pm", "{}:30pm", "{} : 30 pm", "{}.30pm", "{}:30:15", "fri {}pm", "fri {}:30 pm",
        "fri {} .30 pm", "5 days {}:30pm", "5 days {} : 30 pm", "fri 10:30:15+{}",
        "fri 10:30:15 + {}:30", "fri 10:30:15-02:{}", "fri 10:30:15 - 02 : {}", "fri 10:{}:15",
        "fri 10:30:{}", "fri 10:30:15.{}", "jan {}", "jan 5, {}", "{} jan", "4 july {}",
        "{}-01-01", "1/{}", "1/2/{}", "jan x {}pm", "jan x 10:30:15+{}", "a b {} days", "-{} weeks", "- {} weeks ago",
        "last {} years", "{}pm x", "{} pmx", "fri {} : 30 : 15 pm", "fri 10:30:15.5+{}",
        "fri 10:30:15 . 5 - {} : 30", "5 days {}.30 pm",
    ];
    let early = at(0, 1, 1, 0, 0, 0, 0);
    for number in numbers {
        for shape in shapes {
            split_is_sound(&shape.replace("{}", number), &now);
        }
        for shape in ["-{} weeks", "{} weeks ago", "-{} months", "{} years ago", "-{} days"] {
            split_is_sound(&shape.replace("{}", number), &early);
        }
    }
}

#[test]
fn fractions_in_many_places_are_split_without_fault() {
    let now = at(2024, 1, 3, 10, 0, 0, 0);
    let ends = ["", "x", " ", " 5", "5x", "5\u{0663}", "\u{0663}", "5 \u{0663}", "\0\u{0663}", "5\0", ".", "5.5", "e5", "-5", "\u{2167}", "5\u{2167}"];
    let starts = [
        "10:30:15.", "10 : 30 : 15 .", "fri 10:30:15.", "5 days 10:30:15.", "5 days 10 :30: 15 .",
        "jan x 10:30:15.", "jan 5, 2024 10:30:15 .", "T10:30:15.", "10:30:15.5.", "1:2:3:4:5.",
        "10:30:15\u{a0}.",
    ];
    for start in starts {
        for end in ends {
            split_is_sound(&format!("{}{}", start, end), &now);
        }
    }
}

const PIECES: [&str; 64] = [
    "next", "last", "now", "today", "tomorrow", "yesterday", "fri", "friday", "sun", "jan",
    "march", "dec", "ago", "am", "pm", "PM", "days", "d", "weeks", "w", "months", "m", "years",
    "y", "h", "min", "sec", "s", "T", "Z", "0", "1", "4", "12", "30", "59", "2024", "99",
    "1234567", "12345678", "4294967290", ":", ":", ".", ".", "-", "-", "/", ",", "+", " ", " ",
    " ", "\u{e9}", "\u{e9}\u{e9}", "a\u{e9}", "\u{130}", "\u{0663}", "\u{a0}", "\u{1f600}", "'",
    "\"", "_", "x",
];

fn mixed_texts(seed: u64, count: usize) -> Vec<String> {
    let mut state = seed;
    let mut step = move || {
        state = state.wrapping_mul(6364136223846793005).wrapping_add(1442695040888963407);
        (state >> 33) as usize
    };
    let mut texts = Vec::new();
    for _ in 0..count {
        let pieces = 1 + step() % 9;
        let mut text = String::new();
        for _ in 0..pieces {
            text.push_str(PIECES[step() % PIECES.len()]);
            if step() % 3 == 0 {
                text.push(' ');
            }
        }
        texts.push(text);
    }
    texts
}

#[test]
fn mixed_texts_are_split_without_fault() {
    let now = at(2024, 1, 31, 23, 59, 59, 0);
    for text in mixed_texts(1, 400) {
        split_is_sound(&text, &now);
    }
}

#[test]
fn more_mixed_texts_are_split_without_fault() {
    let now = at(9998, 12, 31, 0, 0, 0, -3600);
    for text in mixed_texts(2, 400) {
        split_is_sound(&text, &now);
    }
}

#[test]
fn mixed_texts_after_a_date_are_split_without_fault() {
    let now = at(0, 3, 1, 12, 0, 0, 3600);
    for (i, text) in mixed_texts(3, 400).into_iter().enumerate() {
        let before = ["fri ", "jan 5 ", "5 days ", "10:30:15", "tomorrow "][i % 5];
        split_is_sound(&format!("{}{}", before, text), &now);
    }
}
