use cloudflare_ddns_update::ipv4::{parse_chars, Ipv4};
use cloudflare_ddns_update::text::{chars_of, join, push_decimal, trim_bounds};

#[test]
fn parses_a_dotted_quad() {
    assert_eq!(Ipv4::parse("203.0.113.7"), Some(Ipv4::new(203, 0, 113, 7)));
    assert_eq!(Ipv4::parse("1.2.3.4"), Some(Ipv4 { a: 1, b: 2, c: 3, d: 4 }));
}

#[test]
fn parses_the_ends_of_the_range() {
    assert_eq!(Ipv4::parse("0.0.0.0"), Some(Ipv4::new(0, 0, 0, 0)));
    assert_eq!(
        Ipv4::parse("255.255.255.255"),
        Some(Ipv4::new(255, 255, 255, 255))
    );
    assert_eq!(Ipv4::parse("10.99.100.9"), Some(Ipv4::new(10, 99, 100, 9)));
}

#[test]
fn refuses_what_is_no_address() {
    for text in [
        "",
        "not-an-ip",
        "::1",
        "1.2.3",
        "1.2.3.4.5",
        "1.2.3.",
        ".1.2.3",
        "1..2.3",
        "256.1.1.1",
        "1.2.3.256",
        "1.2.3.999",
        "1.2.3.1000",
        "01.2.3.4",
        "1.2.3.04",
        "00.0.0.0",
        "1.2.3.4 ",
        " 1.2.3.4",
        "1.2.3.4\n",
        "+1.2.3.4",
        "1.2.3.-4",
        "1,2,3,4",
        "1.2.3.4a",
        "a.b.c.d",
        "\u{661}.2.3.4",
    ] {
        assert_eq!(Ipv4::parse(text), None, "{:?}", text);
    }
}

#[test]
fn trims_whitespace_around_the_address() {
    let expected = Some(Ipv4::new(203, 0, 113, 7));
    assert_eq!(Ipv4::parse_trimmed("203.0.113.7"), expected);
    assert_eq!(Ipv4::parse_trimmed("203.0.113.7\n"), expected);
    assert_eq!(Ipv4::parse_trimmed("  \t203.0.113.7\r\n"), expected);
    assert_eq!(Ipv4::parse_trimmed("\u{0B}\u{0C}203.0.113.7 "), expected);
}

#[test]
fn trimming_does_not_reach_inside() {
    assert_eq!(Ipv4::parse_trimmed("203.0. 113.7"), None);
    assert_eq!(Ipv4::parse_trimmed("   "), None);
    assert_eq!(Ipv4::parse_trimmed(""), None);
    assert_eq!(Ipv4::parse_trimmed("not-an-ip"), None);
    assert_eq!(Ipv4::parse_trimmed("::1"), None);
    assert_eq!(Ipv4::parse_trimmed("\u{A0}1.2.3.4"), None);
}

#[test]
fn writes_a_dotted_quad() {
    assert_eq!(Ipv4::new(203, 0, 113, 8).to_text(), "203.0.113.8");
    assert_eq!(Ipv4::new(0, 0, 0, 0).to_text(), "0.0.0.0");
    assert_eq!(Ipv4::new(255, 255, 255, 255).to_text(), "255.255.255.255");
    assert_eq!(Ipv4::new(1, 20, 100, 109).to_text(), "1.20.100.109");
}

#[test]
fn appends_a_dotted_quad() {
    let mut out = String::from("at ");
    Ipv4::new(192, 168, 1, 10).push_to(&mut out);
    assert_eq!(out, "at 192.168.1.10");
}

#[test]
fn text_and_address_go_round() {
    for a in [0u8, 1, 9, 10, 99, 100, 199, 200, 255] {
        for d in [0u8, 7, 10, 42, 100, 255] {
            let ip = Ipv4::new(a, 0, 113, d);
            assert_eq!(Ipv4::parse(&ip.to_text()), Some(ip));
        }
    }
}

#[test]
fn reads_characters_directly() {
    let v: Vec<char> = "8.8.4.4".chars().collect();
    assert_eq!(parse_chars(&v), Some(Ipv4::new(8, 8, 4, 4)));
    let bad: Vec<char> = "8.8.4".chars().collect();
    assert_eq!(parse_chars(&bad), None);
}

#[test]
fn characters_of_a_string() {
    assert_eq!(chars_of("a.b"), vec!['a', '.', 'b']);
    assert_eq!(chars_of(""), Vec::<char>::new());
    assert_eq!(chars_of("\u{e9}x"), vec!['\u{e9}', 'x']);
}

#[test]
fn bounds_of_the_trimmed_part() {
    let v: Vec<char> = "  ab c \n".chars().collect();
    assert_eq!(trim_bounds(&v), (2, 6));
    let blank: Vec<char> = " \t ".chars().collect();
    let (start, end) = trim_bounds(&blank);
    assert_eq!(start, end);
    let plain: Vec<char> = "x".chars().collect();
    assert_eq!(trim_bounds(&plain), (0, 1));
    assert_eq!(trim_bounds(&Vec::new()), (0, 0));
}

#[test]
fn decimal_numerals() {
    for (n, text) in [
        (0u64, "0"),
        (7, "7"),
        (10, "10"),
        (255, "255"),
        (1000, "1000"),
        (u64::MAX, "18446744073709551615"),
    ] {
        let mut out = String::new();
        push_decimal(&mut out, n);
        assert_eq!(out, text);
    }
    let mut out = String::from("n=");
    push_decimal(&mut out, 42);
    assert_eq!(out, "n=42");
}

#[test]
fn joins_with_a_separator() {
    let parts = vec!["a".to_owned(), "bc".to_owned(), "".to_owned(), "d".to_owned()];
    assert_eq!(join(&parts, ", "), "a, bc, , d");
    assert_eq!(join(&vec!["only".to_owned()], ", "), "only");
    assert_eq!(join(&Vec::new(), ", "), "");
}
