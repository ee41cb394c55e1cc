use dev_panel::app::App;
use dev_panel::manager::{ConfigSource, Manager};
use dev_panel::platform::Os;
use dev_panel::ports::PortEntry;
use dev_panel::split::{
    at, copy_range, ends_with, has, join_strings, position, space, split_at, split_lines,
    split_words, starts_with, trimmed,
};
use dev_panel::text::{
    chars_are, chars_of, decimal_string, is_text, parse_i32, parse_number, parse_u16, push_decimal,
    push_signed, push_text, signed_string, string_of, strings,
};

fn texts(v: Vec<Vec<char>>) -> Vec<String> {
    v.into_iter().map(|c| c.into_iter().collect()).collect()
}

#[test]
fn splitting_and_joining_are_inverse() {
    let cases =
        [("", vec![""]), ("a", vec!["a"]), ("a:b::c:", vec!["a", "b", "", "c", ""]), (":", vec!["", ""])];
    for (whole, parts) in cases {
        let got = texts(split_at(&chars_of(whole), ':'));
        assert_eq!(got, parts);
        assert_eq!(join_strings(&got, ":"), whole);
    }
    assert_eq!(join_strings(&Vec::new(), ", "), "");
    assert_eq!(join_strings(&strings(&["a", "b", "c"]), ", "), "a, b, c");
}

#[test]
fn words_have_no_white_space() {
    let got = texts(split_words(&chars_of(" \t one\u{a0}two  three\n")));
    assert_eq!(got, vec!["one", "two", "three"]);
    assert!(split_words(&chars_of(" \r\n ")).is_empty());
    assert!(space('\u{3000}') && space('\u{85}') && !space('\u{200b}') && !space('x'));
}

#[test]
fn lines_end_with_line_feeds() {
    let got = |s: &str| texts(split_lines(&chars_of(s)));
    assert_eq!(got("a\nb\r\n\nc"), vec!["a", "b", "", "c"]);
    assert_eq!(got("a\n"), vec!["a"]);
    assert_eq!(got("a\r"), vec!["a\r"]);
    assert!(got("").is_empty());
    for s in ["a\nb\r\n\nc", "\n\n", "x\r\r\n", "ä\r\nö"] {
        assert_eq!(got(s), s.lines().map(String::from).collect::<Vec<_>>());
    }
}

#[test]
fn ends_are_trimmed() {
    let trim = |s: &str| string_of(&trimmed(&chars_of(s)));
    assert_eq!(trim("  a b \n"), "a b");
    assert_eq!(trim("\u{2003}x"), "x");
    assert_eq!(trim(" \t "), "");
}

#[test]
fn texts_are_found_in_texts() {
    assert!(has("server.js", "ver") && has("x", "") && !has("x", "xy"));
    let chars = chars_of("a->b->c");
    assert_eq!(position(&chars, &chars_of("->")), Some(1));
    assert_eq!(position(&chars, &chars_of("=>")), None);
    assert!(at(&chars, 4, &chars_of("->")) && !at(&chars, 2, &chars_of("->")));
    assert!(starts_with(&chars, "a-") && !starts_with(&chars, "b"));
    assert!(ends_with(&chars, ">c") && !ends_with(&chars, "xa->b->c"));
    assert_eq!(string_of(&copy_range(&chars, 3, 6)), "b->");
    assert!(is_text("up", "up") && !is_text("up", "Up"));
    assert!(chars_are(&chars_of("npm"), "npm") && !chars_are(&chars_of("npx"), "npm"));
}

#[test]
fn numbers_are_written() {
    for n in [0u64, 7, 10, 65_535, u64::MAX] {
        assert_eq!(decimal_string(n), n.to_string());
    }
    for n in [0i32, -1, i32::MIN, i32::MAX] {
        assert_eq!(signed_string(n), n.to_string());
    }
    let mut s = "a".to_string();
    push_decimal(&mut s, 12);
    push_text(&mut s, "/");
    push_signed(&mut s, -3);
    assert_eq!(s, "a12/-3");
}

#[test]
fn numbers_are_read() {
    for s in ["0", "80", "+80", "65535", "65536", "", "+", "-1", "8 0", "0x50", "00080", "٣"] {
        assert_eq!(parse_u16(&chars_of(s)), s.parse::<u16>().ok(), "{s}");
    }
    for s in ["0", "-0", "-2147483648", "2147483647", "2147483648", "-", "+5", "--5", "5a"] {
        assert_eq!(parse_i32(&chars_of(s)), s.parse::<i32>().ok(), "{s}");
    }
    for s in ["0BB8", "ffff", "FFFF", "10000", "g", "+1f"] {
        assert_eq!(
            parse_number(&chars_of(s), 16, 0xffff),
            u16::from_str_radix(s, 16).ok().map(u64::from),
            "{s}"
        );
    }
}

#[test]
fn everything_is_shown_without_a_configuration() {
    let m = Manager::load(ConfigSource::Missing).unwrap();
    let mut app = App::new(m, Os::Linux, 1, true);
    let entry = |port: u16, pid: i32| PortEntry { port, pid, ..PortEntry::default() };
    let found = Ok(vec![entry(80, 5), entry(80, 6), entry(443, 5)]);
    let listed = Ok(dev_panel::docker::parse_ps("i\tn\tm\t\tUp\n"));
    app.poll(Vec::new(), Vec::new(), found, listed);
    app.refresh();
    let rows: Vec<(Option<u16>, Option<i32>)> = app.rows.iter().map(|r| (r.port, r.pid)).collect();
    assert_eq!(
        rows,
        vec![(Some(80), Some(5)), (Some(80), Some(6)), (Some(443), Some(5)), (None, None)]
    );
}
