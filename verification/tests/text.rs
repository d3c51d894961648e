use gitsect::numbers::{decimal_of, hex_of, parse_number};
use gitsect::text::{
    chars_of, first_token_bounds, is_whitespace, join_with, last_token_bounds, lines_of, search,
    split, string_of, trim_bounds,
};

fn chars(s: &str) -> Vec<char> {
    s.chars().collect()
}

fn text(v: &[char]) -> String {
    v.iter().collect()
}

fn samples() -> Vec<&'static str> {
    vec![
        "",
        " ",
        "a",
        "  a  ",
        "\t a b \n",
        "a\nb",
        "a\nb\n",
        "\n",
        "\n\n",
        "a\r\nb\r\n",
        "a\r",
        "a\r\n\r\nb",
        "\r\n",
        "\r",
        "a\rb\nc",
        "  12 insertions(+), 3 deletions(-)  ",
        "\u{a0}x\u{3000}",
        "\u{2003}tok\u{85}en\u{1680}",
        "x\u{200b}y",
        "COMMIT_START\nh\nCOMMIT_START\n",
        "+7",
        "é t é",
    ]
}

#[test]
fn whitespace_is_what_the_standard_library_says() {
    let mut code: u32 = 0;
    while code <= 0x10ffff {
        if let Some(c) = char::from_u32(code) {
            assert_eq!(is_whitespace(c), c.is_whitespace(), "U+{:04X}", code);
        }
        code += 1;
    }
}

#[test]
fn strings_and_characters_convert_both_ways() {
    for s in samples() {
        assert_eq!(chars_of(s), chars(s));
        assert_eq!(string_of(&chars(s)), s);
    }
}

#[test]
fn lines_are_those_of_the_standard_library() {
    for s in samples() {
        let ours: Vec<String> = lines_of(&chars(s)).iter().map(|l| text(l)).collect();
        let theirs: Vec<String> = s.lines().map(|l| l.to_string()).collect();
        assert_eq!(ours, theirs, "{:?}", s);
    }
}

#[test]
fn trimming_is_that_of_the_standard_library() {
    for s in samples() {
        let v = chars(s);
        let (a, b) = trim_bounds(&v, 0, v.len());
        assert_eq!(text(&v[a..b]), s.trim(), "{:?}", s);
    }
}

#[test]
fn tokens_are_those_of_the_standard_library() {
    for s in samples() {
        let v = chars(s);
        let (a, b) = first_token_bounds(&v, 0, v.len());
        assert_eq!(text(&v[a..b]), s.split_whitespace().next().unwrap_or(""), "{:?}", s);
        let (a, b) = last_token_bounds(&v, 0, v.len());
        assert_eq!(text(&v[a..b]), s.split_whitespace().last().unwrap_or(""), "{:?}", s);
    }
}

#[test]
fn splitting_is_that_of_the_standard_library() {
    let patterns = ["COMMIT_START\n", "a", "aa", "\n", "ab"];
    let mut inputs = samples();
    inputs.extend(["aaa", "aaaa", "abab", "xaay", "ab"]);
    for s in inputs {
        for p in patterns {
            let ours: Vec<String> = split(&chars(s), &chars(p)).iter().map(|l| text(l)).collect();
            let theirs: Vec<String> = s.split(p).map(|l| l.to_string()).collect();
            assert_eq!(ours, theirs, "{:?} by {:?}", s, p);
        }
    }
}

#[test]
fn search_finds_the_first_occurrence_in_the_window() {
    let v = chars("abcabcabc");
    let pat = chars("bc");
    assert_eq!(search(&v, 0, v.len(), &pat), 1);
    assert_eq!(search(&v, 2, v.len(), &pat), 4);
    assert_eq!(search(&v, 2, 5, &pat), 5);
    assert_eq!(search(&v, 8, v.len(), &pat), 9);
    assert_eq!(search(&v, 3, 3, &pat), 3);
}

#[test]
fn numbers_parse_as_in_the_standard_library() {
    let tokens = [
        "", "+", "-", "0", "00", "+0", "-0", "7", "+7", "007", "4294967295", "4294967296",
        "04294967295", "99999999999999999999", "12a", "a12", "1 2", " 1", "1 ", "++1", "1+",
        "١٢", "1_000",
    ];
    for t in tokens {
        let v = chars(t);
        assert_eq!(parse_number(&v, 0, v.len()), t.parse::<u32>().ok(), "{:?}", t);
    }
}

#[test]
fn numbers_are_written_as_in_the_standard_library() {
    for n in [0u32, 1, 9, 10, 11, 99, 100, 101, 65535, 1000000, 4294967294, 4294967295] {
        assert_eq!(text(&decimal_of(n)), n.to_string());
    }
}

#[test]
fn bytes_are_written_as_two_hex_digits_each() {
    assert_eq!(text(&hex_of(&[])), "");
    assert_eq!(text(&hex_of(&[0x00, 0x09, 0x0a, 0x0f, 0x10, 0x9a, 0xa9, 0xff])), "00090a0f109aa9ff");
}

#[test]
fn join_puts_the_separator_between_parts() {
    let sep = chars(", ");
    assert_eq!(text(&join_with(&[].to_vec(), &sep)), "");
    assert_eq!(text(&join_with(&vec![chars("a")], &sep)), "a");
    assert_eq!(text(&join_with(&vec![chars("a"), chars(""), chars("b")], &sep)), "a, , b");
}
