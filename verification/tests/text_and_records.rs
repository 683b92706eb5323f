use sysdemo::penguins::{parse_records, table_is_complete};
use sysdemo::text::{
    chars_of, parse_u32_chars, split_chars, split_lines, string_from_chars, trim_chars,
    white_space_char,
};

fn strings(parts: &[Vec<char>]) -> Vec<String> {
    parts.iter().map(|p| p.iter().collect()).collect()
}

#[test]
fn lines_strip_line_endings() {
    let chars = chars_of("a\r\nb\nc");
    assert_eq!(strings(&split_lines(&chars)), vec!["a", "b", "c"]);
}

#[test]
fn lines_drop_final_empty_line() {
    let chars = chars_of("one\ntwo\n");
    assert_eq!(strings(&split_lines(&chars)), vec!["one", "two"]);
}

#[test]
fn lines_keep_lone_carriage_return_at_end() {
    let chars = chars_of("x\r");
    assert_eq!(strings(&split_lines(&chars)), vec!["x\r"]);
}

#[test]
fn lines_of_empty_text() {
    assert!(split_lines(&chars_of("")).is_empty());
    assert_eq!(strings(&split_lines(&chars_of("\n\n"))), vec!["", ""]);
}

#[test]
fn lines_agree_with_std() {
    let text = "first\r\n\r\nthird\n  \nlast\r";
    let ours = strings(&split_lines(&chars_of(text)));
    let std: Vec<String> = text.lines().map(|l| l.to_string()).collect();
    assert_eq!(ours, std);
}

#[test]
fn split_keeps_empty_pieces() {
    let parts = split_chars(&chars_of("a,,b,"), ',');
    assert_eq!(strings(&parts), vec!["a", "", "b", ""]);
    assert_eq!(strings(&split_chars(&chars_of(""), ',')), vec![""]);
}

#[test]
fn trim_removes_unicode_white_space() {
    let t = trim_chars(&chars_of("\u{3000} \tLittle penguin \u{a0}\n"));
    assert_eq!(string_from_chars(&t), "Little penguin");
    assert!(trim_chars(&chars_of(" \t ")).is_empty());
    assert_eq!(string_from_chars(&trim_chars(&chars_of("a b"))), "a b");
}

#[test]
fn white_space_agrees_with_std() {
    for n in 0u32..0x3100 {
        if let Some(c) = char::from_u32(n) {
            assert_eq!(white_space_char(c), c.is_whitespace(), "{n:#x}");
        }
    }
}

#[test]
fn parse_u32_accepts_digits_and_plus() {
    assert_eq!(parse_u32_chars(&chars_of("33")), Some(33));
    assert_eq!(parse_u32_chars(&chars_of("+42")), Some(42));
    assert_eq!(parse_u32_chars(&chars_of("007")), Some(7));
    assert_eq!(parse_u32_chars(&chars_of("4294967295")), Some(u32::MAX));
}

#[test]
fn parse_u32_rejects_what_std_rejects() {
    for text in ["", "+", "-1", "4294967296", "99999999999999999999", "1a", " 1", "data", "1_000"] {
        assert_eq!(parse_u32_chars(&chars_of(text)), None, "{text}");
        assert!(text.parse::<u32>().is_err());
    }
}

#[test]
fn penguin_table_records() {
    let penguins = "\
        common name,length (cm)
        Little penguin,33
        Yellow-eyed penguin,65
        Fiordland penguin,60
        Invalid,data
        ";
    let records = parse_records(penguins);
    let got: Vec<(String, u32)> = records.into_iter().map(|r| (r.name, r.length_cm)).collect();
    assert_eq!(
        got,
        vec![
            ("Little penguin".to_string(), 33),
            ("Yellow-eyed penguin".to_string(), 65),
            ("Fiordland penguin".to_string(), 60),
        ]
    );
}

#[test]
fn penguin_header_and_blank_lines_are_skipped() {
    let text = "Emperor penguin,100\n\n   \nKing penguin, +95 \nGentoo,x\n";
    let records = parse_records(text);
    assert_eq!(records.len(), 1);
    assert_eq!(records[0].name, "King penguin");
    assert_eq!(records[0].length_cm, 95);
}

#[test]
fn table_completeness() {
    assert!(table_is_complete("name,length\nLittle penguin,33\n\n"));
    assert!(table_is_complete("no comma in the header\nA,1"));
    assert!(!table_is_complete("name,length\nLittle penguin 33\n"));
    assert!(table_is_complete(""));
}
