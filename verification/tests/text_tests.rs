use gcm::text::{chars_of, first_lines, prefix_within_bytes, trim_bounds, trim_str};

#[test]
fn trim_matches_std() {
    let cases = [
        "",
        "   ",
        "abc",
        "  abc  ",
        "\t\n a b \r\n",
        "\u{a0}\u{2003}x\u{3000}",
        "\u{200b}x\u{200b}",
        "\u{85}y\u{1680}",
        "é ",
    ];
    for c in cases.iter() {
        assert_eq!(trim_str(c), c.trim(), "case {:?}", c);
    }
}

#[test]
fn trim_bounds_of_chars() {
    let v = chars_of("  héllo ");
    assert_eq!(v.len(), 8);
    assert_eq!(trim_bounds(&v), (2, 7));
    let w = chars_of("   ");
    let (a, b) = trim_bounds(&w);
    assert_eq!(a, b);
}

#[test]
fn trim_twice_is_trim_once() {
    let s = "  \u{2028} x y \t";
    let once = trim_str(s);
    assert_eq!(trim_str(&once), once);
    assert_eq!(once, "x y");
}

fn std_first_lines(s: &str, n: usize) -> String {
    s.lines().take(n).collect::<Vec<_>>().join("\n")
}

#[test]
fn first_lines_matches_std() {
    let cases = [
        "",
        "\n",
        "one",
        "one\n",
        "one\ntwo",
        "one\r\ntwo\r\n",
        "a\rb\nc\r",
        "\n\n\nx",
        "l1\nl2\nl3\nl4\nl5",
    ];
    for c in cases.iter() {
        for n in 0..7 {
            assert_eq!(first_lines(c, n), std_first_lines(c, n), "case {:?} n {}", c, n);
        }
    }
}

#[test]
fn first_lines_keeps_beginning() {
    let text: String = (1..=60).map(|i| format!("line {}", i)).collect::<Vec<_>>().join("\n");
    let head = first_lines(&text, 50);
    assert!(text.starts_with(&head));
    assert!(head.ends_with("line 50"));
    assert_eq!(head.lines().count(), 50);
}

#[test]
fn first_lines_of_short_text_is_the_text() {
    let text = "alpha\nbeta\ngamma";
    assert_eq!(first_lines(text, 50), text);
}

#[test]
fn prefix_within_bytes_cases() {
    assert_eq!(prefix_within_bytes("hello", 3), "hel");
    assert_eq!(prefix_within_bytes("hello", 5), "hello");
    assert_eq!(prefix_within_bytes("hello", 3000), "hello");
    assert_eq!(prefix_within_bytes("", 0), "");
    // "é" is two bytes; three bytes of "éa" end on a boundary
    assert_eq!(prefix_within_bytes("éab", 3), "éa");
    assert_eq!(prefix_within_bytes("ééé", 4), "éé");
}
