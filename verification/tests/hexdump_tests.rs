use sysdemo::hexdump::{dump_line, hex_dump, hex_padded};

#[test]
fn dump_line_marks_zero_and_ff() {
    let chunk: Vec<u8> = (0u8..16).map(|b| if b == 15 { 0xff } else { b }).collect();
    let line = dump_line(0, &chunk);
    assert_eq!(
        line,
        "[0x00000000] .  01 02 03 04 05 06 07 08 09 0a 0b 0c 0d 0e ## "
    );
}

#[test]
fn dump_matches_format_strings() {
    let bytes: Vec<u8> = (0..=255u8).chain(0..=255u8).collect();
    let lines = hex_dump(&bytes);
    assert_eq!(lines.len(), bytes.len() / 16);
    for (k, chunk) in bytes.chunks_exact(16).enumerate() {
        let mut expected = format!("[0x{:08x}] ", 16 * k);
        for byte in chunk {
            match *byte {
                0x00 => expected.push_str(".  "),
                0xff => expected.push_str("## "),
                _ => expected.push_str(&format!("{:02x} ", byte)),
            }
        }
        assert_eq!(lines[k], expected);
        assert_eq!(lines[k].len(), 13 + 3 * 16);
    }
}

#[test]
fn dump_leaves_out_a_short_last_line() {
    let bytes = vec![7u8; 40];
    let lines = hex_dump(&bytes);
    assert_eq!(lines.len(), 2);
    assert!(lines[1].starts_with("[0x00000010] 07 "));
    assert!(hex_dump(&[1, 2, 3]).is_empty());
}

#[test]
fn hex_padding_widths() {
    let s: String = hex_padded(0xbeef, 2).into_iter().collect();
    assert_eq!(s, "beef");
    let s: String = hex_padded(0, 8).into_iter().collect();
    assert_eq!(s, "00000000");
    let s: String = hex_padded(0x1_0000_0000, 8).into_iter().collect();
    assert_eq!(s, "100000000");
    let line = dump_line(0x1_2345_6789, &[]);
    assert_eq!(line, "[0x123456789] ");
}
