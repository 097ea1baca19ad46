use props_parser::text::{chars_of, decimal_chars, decimal_len, split_lines};

fn texts_over(alphabet: &[char], longest: usize) -> Vec<String> {
    let mut all = vec![String::new()];
    let mut last = vec![String::new()];
    for _ in 0..longest {
        let mut next = Vec::new();
        for text in &last {
            for c in alphabet {
                let mut longer = text.clone();
                longer.push(*c);
                next.push(longer);
            }
        }
        all.extend(next.iter().cloned());
        last = next;
    }
    all
}

#[test]
fn lines_end_at_line_feeds() {
    assert_eq!(split_lines(""), Vec::<String>::new());
    assert_eq!(split_lines("a"), vec!["a"]);
    assert_eq!(split_lines("a\n"), vec!["a"]);
    assert_eq!(split_lines("\n"), vec![""]);
    assert_eq!(split_lines("a\n\nb"), vec!["a", "", "b"]);
    assert_eq!(split_lines("a\nb\n\n"), vec!["a", "b", ""]);
}

#[test]
fn carriage_return_is_dropped_before_a_line_feed_only() {
    assert_eq!(split_lines("a\r\nb"), vec!["a", "b"]);
    assert_eq!(split_lines("a\r"), vec!["a\r"]);
    assert_eq!(split_lines("a\rb\n"), vec!["a\rb"]);
    assert_eq!(split_lines("a\r\r\n"), vec!["a\r"]);
    assert_eq!(split_lines("\r\n\r\n"), vec!["", ""]);
    assert_eq!(split_lines("foo\nbar\n\r\nbaz\r"), vec!["foo", "bar", "", "baz\r"]);
}

#[test]
fn lines_agree_with_the_lines_of_a_str() {
    for text in texts_over(&['a', '\r', '\n', '\u{e9}'], 7) {
        let expected: Vec<String> = text.lines().map(String::from).collect();
        assert_eq!(split_lines(&text), expected, "{:?}", text);
    }
}

#[test]
fn characters_of_a_text() {
    assert_eq!(chars_of(""), Vec::<char>::new());
    assert_eq!(chars_of("a\u{e9}\u{1f600}z"), vec!['a', '\u{e9}', '\u{1f600}', 'z']);
}

#[test]
fn decimal_rendering() {
    assert_eq!(decimal_chars(0), vec!['0']);
    assert_eq!(decimal_chars(7), vec!['7']);
    assert_eq!(decimal_chars(10), vec!['1', '0']);
    assert_eq!(decimal_chars(1234567890), "1234567890".chars().collect::<Vec<char>>());
    assert_eq!(decimal_chars(u64::MAX), u64::MAX.to_string().chars().collect::<Vec<char>>());
    for n in [0u64, 9, 10, 99, 100, 999, 1000, 65535, 65536, u64::MAX] {
        assert_eq!(decimal_len(n), n.to_string().len());
        assert_eq!(decimal_chars(n).len(), decimal_len(n));
    }
}
