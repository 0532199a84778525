use tasklist::digits::parse_number;
use tasklist::due::{comes_before, is_canonical};
use tasklist::guard::is_english_safe;
use tasklist::text::{chars_of, find, has, is_word, remove_first, string_of};
use tasklist::words::{collapse, tags, trim};

fn chars(s: &str) -> Vec<char> {
    s.chars().collect()
}

fn text(v: Vec<char>) -> String {
    v.into_iter().collect()
}

#[test]
fn characters_of_a_string() {
    assert_eq!(chars_of("a\u{e9}z"), vec!['a', '\u{e9}', 'z']);
    assert_eq!(chars_of(""), Vec::<char>::new());
}

#[test]
fn finding_the_first_occurrence() {
    assert_eq!(find(&chars("abcabc"), &chars("bc")), Some(1));
    assert_eq!(find(&chars("abcabc"), &chars("cb")), None);
    assert_eq!(find(&chars("abc"), &chars("")), Some(0));
    assert_eq!(find(&chars(""), &chars("")), Some(0));
    assert_eq!(find(&chars("ab"), &chars("abc")), None);
    assert!(has(&chars("buy milk"), &chars("milk")));
    assert!(!has(&chars("buy milk"), &chars("Milk")));
}

#[test]
fn cutting_out_the_first_occurrence() {
    assert_eq!(text(remove_first(&chars("a 3pm b 3pm"), &chars("3pm"))), "a  b 3pm");
    assert_eq!(text(remove_first(&chars("abc"), &chars("x"))), "abc");
    assert_eq!(text(remove_first(&chars("abc"), &chars(""))), "abc");
    assert_eq!(text(remove_first(&chars("totodayday"), &chars("today"))), "today");
}

#[test]
fn trimming_white_space() {
    assert_eq!(text(trim(&chars("  call mom \t\n"))), "call mom");
    assert_eq!(text(trim(&chars("\u{a0}x\u{3000}"))), "x");
    assert_eq!(text(trim(&chars("   "))), "");
    assert_eq!(text(trim(&chars(""))), "");
}

#[test]
fn collapsing_doubled_spaces() {
    assert_eq!(text(collapse(&chars("a  b"))), "a b");
    assert_eq!(text(collapse(&chars("a   b"))), "a  b");
    assert_eq!(text(collapse(&chars("a    b"))), "a  b");
    assert_eq!(text(collapse(&chars("a b"))), "a b");
    assert_eq!(text(collapse(&chars("  "))), " ");
}

#[test]
fn tags_in_order_with_repetitions() {
    assert_eq!(tags(&chars("buy milk #shopping #urgent")), vec!["#shopping", "#urgent"]);
    assert_eq!(tags(&chars("#a x #b\t#a  #")), vec!["#a", "#b", "#a", "#"]);
    assert_eq!(tags(&chars("no#tag here")), Vec::<String>::new());
    assert_eq!(tags(&chars("")), Vec::<String>::new());
}

#[test]
fn numbers_as_the_standard_library_reads_them() {
    for s in ["0", "7", "007", "+5", "4294967295", "4294967296", "", "+", "-1", "1 ", "1a", "٣", "99999999999999999999"] {
        assert_eq!(parse_number(&chars(s)), s.parse::<u32>().ok(), "{:?}", s);
    }
    assert_eq!(parse_number(&chars("15")), Some(15));
}

#[test]
fn canonical_shapes_of_a_due_date() {
    assert!(is_canonical(&chars("2024-01-04")));
    assert!(is_canonical(&chars("2024-01-04 15:00")));
    assert!(!is_canonical(&chars("2024-1-4")));
    assert!(!is_canonical(&chars("2024-01-04 15:00:00")));
    assert!(!is_canonical(&chars("2024-01-04T15:00")));
    assert!(!is_canonical(&chars("friday")));
    assert!(!is_canonical(&chars("")));
}

#[test]
fn texts_for_the_english_parser() {
    for safe in [
        "",
        "next friday 8pm",
        "10:30:15.250",
        "10:30:15.",
        "123456 days",
        "9999999 weeks",
        "- next 1234567",
        "friday 8pm call 5551234567 please",
        "friday 8pm ref -1234567",
        "friday 8pm call 555-1234567",
        "friday 10:30 +1234567",
        "friday 8pm call 5551234567: ask",
        "friday 8pm 5551234567pmx",
        "see you.",
        "tomorrow 3pm. Call Bob",
        "July 4 3.30 pm. party",
        "friday 8pm call 5551234567",
        "8pm 5551234567 call back",
        "friday 8pm \u{e9}",
        "tomorrow d\u{e9}jeuner",
        "friday 5\u{20ac} a.b",
        "\u{e9}t\u{e9}",
        "caf\u{e9} tomorrow",
        "1 April 2025 10.30 pm \u{e9}",
        "x1y\u{e9} \u{e9}\u{e9}",
        "next next \u{e9}\u{e9}",
        "5 d\u{e9}",
        "5 - \u{e9}",
        "a b c 1234567890 d 1234567",
        "10:30.x 10.30.x 10-30:15.x",
        "\u{a0}monday",
        "FR\u{130}",
        "last\u{a0}a\u{1f600}",
    ] {
        assert!(is_english_safe(&chars(safe)), "{:?}", safe);
    }
    for faulty in [
        "12345678 days",
        "- next 12345678",
        "friday 10:30:15.5 - 1234567",
        "\u{e9}\u{e9}",
        "  -  \u{e9}\u{e9}",
        "next \u{e9}\u{e9}",
        "last\u{a0}\u{e9}\u{e9}",
        "5 \u{e9}",
        "5\u{e9}",
        "ab\u{e9}",
        "12ab\u{e9}",
        "- next 5 \u{e9}",
        "f\u{130}",
        "10:30:15.x",
        "10 : 30 : 15 . 5x\u{0663}",
        "10:30:15. 5",
        "10:30:15.5\u{0663}",
        "friday 10:30:15 +1234567",
        "friday 10:30:15 +02:1234567",
        "friday 4294967290pm",
        "friday 4294967290 :30 pm",
        "friday 4294967290.30pm",
    ] {
        assert!(!is_english_safe(&chars(faulty)), "{:?}", faulty);
    }
}

const SAMPLES: [&str; 24] = [
    "",
    " ",
    "  ",
    "   ",
    "a",
    " a ",
    "a  b",
    "a   b    c     d",
    "  call mom  tomorrow  ",
    "\t#tab\n#line\r\n#both",
    "#a#b #c",
    "# #",
    "x\u{a0}#nbsp\u{2003}#em\u{3000}#wide",
    "\u{85}next line\u{2028}sep\u{2029}",
    "\u{200b}zero width is no space\u{200b}",
    "caf\u{e9} #d\u{e9}j\u{e0}",
    "3pm 3pm",
    "totodayday",
    "aaa",
    "abcabc",
    "2024-01-04",
    "2024-01-04 15:00",
    "Z",
    "\u{1f600} #\u{1f600}",
];

#[test]
fn trimming_agrees_with_the_standard_library() {
    for s in SAMPLES {
        assert_eq!(text(trim(&chars(s))), s.trim(), "{:?}", s);
    }
}

#[test]
fn collapsing_agrees_with_the_standard_library() {
    for s in SAMPLES {
        assert_eq!(text(collapse(&chars(s))), s.replace("  ", " "), "{:?}", s);
    }
}

#[test]
fn tags_agree_with_the_standard_library() {
    for s in SAMPLES {
        let expected: Vec<String> =
            s.split_whitespace().filter(|w| w.starts_with('#')).map(|w| w.to_string()).collect();
        assert_eq!(tags(&chars(s)), expected, "{:?}", s);
    }
}

#[test]
fn searching_and_cutting_agree_with_the_standard_library() {
    for hay in SAMPLES {
        for needle in ["", " ", "  ", "a", "aa", "bc", "3pm", "today", "#", "\u{e9}", "2024", "Z"] {
            assert_eq!(has(&chars(hay), &chars(needle)), hay.contains(needle), "{:?} {:?}", hay, needle);
            assert_eq!(
                find(&chars(hay), &chars(needle)),
                hay.find(needle).map(|at| hay[..at].chars().count()),
                "{:?} {:?}",
                hay,
                needle
            );
            assert_eq!(
                text(remove_first(&chars(hay), &chars(needle))),
                hay.replacen(needle, "", 1),
                "{:?} {:?}",
                hay,
                needle
            );
        }
    }
}

#[test]
fn the_order_of_texts_agrees_with_the_standard_library() {
    for a in SAMPLES {
        for b in SAMPLES {
            assert_eq!(comes_before(&chars(a), &chars(b)), a < b, "{:?} {:?}", a, b);
        }
    }
}

#[test]
fn strings_and_characters_convert_both_ways() {
    for s in SAMPLES {
        assert_eq!(string_of(&chars_of(s)), s);
        assert_eq!(chars_of(s), chars(s));
    }
}

#[test]
fn a_word_is_itself_only() {
    assert!(is_word(&chars("high"), "high"));
    assert!(!is_word(&chars("high"), "higher"));
    assert!(!is_word(&chars("high"), "hig"));
    assert!(!is_word(&chars("high"), "hihg"));
    assert!(is_word(&chars(""), ""));
}
