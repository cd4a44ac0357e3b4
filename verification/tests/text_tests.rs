use prioritize::{decimal, join, lines, note_lines, parse_tags, short_date, trim};

#[test]
fn trim_drops_unicode_whitespace() {
    assert_eq!(trim("  a b \t\n"), "a b");
    assert_eq!(trim("\u{3000}x\u{a0}"), "x");
    assert_eq!(trim("   "), "");
    assert_eq!(trim(""), "");
}

#[test]
fn tags_are_split_trimmed_and_empty_ones_dropped() {
    assert_eq!(parse_tags(" a, ,b ,,"), vec!["a", "b"]);
    assert_eq!(parse_tags(""), Vec::<String>::new());
    assert_eq!(parse_tags("one"), vec!["one"]);
    assert_eq!(parse_tags("x , y z"), vec!["x", "y z"]);
}

#[test]
fn tags_roundtrip_through_storage_and_prompt() {
    let tags = vec!["work".to_string(), "urgent".to_string(), "two words".to_string()];
    assert_eq!(parse_tags(&join(&tags, ",")), tags);
    assert_eq!(parse_tags(&join(&tags, ", ")), tags);
    assert_eq!(join(&tags, ","), "work,urgent,two words");
    assert_eq!(join(&Vec::new(), ","), "");
}

#[test]
fn lines_follow_str_lines() {
    assert_eq!(lines("a\r\nb\n"), vec!["a", "b"]);
    assert_eq!(lines("a\n\nb"), vec!["a", "", "b"]);
    assert_eq!(lines("\n"), vec![""]);
    assert_eq!(lines(""), Vec::<String>::new());
    assert_eq!(lines("x\r"), vec!["x\r"]);
    for s in ["a\r\nb\n", "a\n\nb", "\n", "", "x\r", "one\ntwo"] {
        let expected: Vec<String> = s.lines().map(|l| l.to_string()).collect();
        assert_eq!(lines(s), expected);
    }
}

#[test]
fn note_lines_roundtrip() {
    assert_eq!(note_lines(""), vec![""]);
    for notes in ["", "one", "one\ntwo", "a\n\nb"] {
        assert_eq!(join(&note_lines(notes), "\n"), notes);
    }
}

#[test]
fn short_date_takes_month_and_day() {
    assert_eq!(short_date("2024-05-20"), "05-20");
    assert_eq!(short_date("2024-05-20T10:00"), "05-20");
    assert_eq!(short_date("2024"), "     ");
    assert_eq!(short_date(""), "     ");
}

#[test]
fn decimal_numerals() {
    assert_eq!(decimal(0), "0");
    assert_eq!(decimal(7), "7");
    assert_eq!(decimal(10), "10");
    assert_eq!(decimal(1234), "1234");
}

#[test]
fn trim_agrees_with_str_trim() {
    for u in 0u32..0x3100 {
        if let Some(c) = char::from_u32(u) {
            let s = format!("{}a{}b{}", c, c, c);
            assert_eq!(trim(&s), s.trim(), "char {:#x}", u);
        }
    }
}

#[test]
fn parse_tags_agrees_with_split_trim_filter() {
    for raw in ["", ",", " a ,b", "x,,y, ", "\u{2003}tag\u{2003},other", "one, two ,three"] {
        let expected: Vec<String> = raw
            .split(',')
            .map(|s| s.trim().to_string())
            .filter(|s| !s.is_empty())
            .collect();
        assert_eq!(parse_tags(raw), expected);
    }
}

#[test]
fn parsed_tags_reload_unchanged() {
    for raw in ["", " a , b,,c ", "\u{2003}x\u{2003}, y", "one"] {
        let tags = parse_tags(raw);
        assert_eq!(parse_tags(&join(&tags, ",")), tags);
        assert_eq!(parse_tags(&join(&tags, ", ")), tags);
    }
}
