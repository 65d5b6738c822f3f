use rsk_keys::row::{row_view, Cursor, RowBuf, Tone, ROW_LEFT_MAX, ROW_RIGHT_MAX};
use rsk_keys::text::{
    ascii_name, digit_count, hex_byte_tag, hex_bytes, hex_digit, hex_u16, put_ascii, same_text, str_ascii,
    write_dec, write_dec_u32, write_dec_u64,
};

#[test]
fn unprintable_bytes_read_as_question_marks() {
    let mut buf = [0u8; 8];
    let mut len = 77u8;
    put_ascii(&mut buf, &mut len, b"a\x00\x1f \x7e\x7f\xff");
    assert_eq!(&buf[..len as usize], b"a?? ~??");
}

#[test]
fn text_is_cut_at_its_column() {
    let mut buf = [0u8; 4];
    let mut len = 0u8;
    put_ascii(&mut buf, &mut len, b"ABCDEFG");
    assert_eq!(len, 4);
    assert_eq!(&buf, b"ABCD");
    put_ascii(&mut buf, &mut len, b"");
    assert_eq!(len, 0);
}

#[test]
fn bytes_that_are_no_utf8_read_as_one_mark() {
    assert_eq!(str_ascii(b"READY"), "READY");
    assert_eq!(str_ascii(b""), "");
    assert_eq!(str_ascii(&[0xE2, 0x80, 0x94]), "\u{2014}");
    assert_eq!(str_ascii(&[b'A', 0xFF]), "?");
    assert_eq!(str_ascii(&[0xE2, 0x80]), "?");
}

#[test]
fn an_unknown_name_reads_as_a_calm_dash() {
    assert_eq!(ascii_name("RSA-2048"), "RSA-2048");
    assert_eq!(ascii_name(""), "");
    assert_eq!(ascii_name("\u{2014}"), "--");
    assert_eq!(ascii_name("X\u{2014}"), "--");
    assert_eq!(ascii_name("A\tB"), "--");
}

#[test]
fn numbers_are_written_without_leading_zeros() {
    let mut n = [0u8; 6];
    assert_eq!(write_dec(&mut n, 0), "0");
    assert_eq!(write_dec(&mut n, 7), "7");
    assert_eq!(write_dec(&mut n, 65535), "65535");
    let mut m = [0u8; 12];
    assert_eq!(write_dec_u32(&mut m, u32::MAX), "4294967295");
    assert_eq!(write_dec_u32(&mut m, 100), "100");
    assert_eq!(write_dec_u64(&mut [0u8; 20], u64::MAX), "18446744073709551615");
    // A buffer too short keeps the last digits.
    let mut s = [0u8; 2];
    assert_eq!(write_dec(&mut s, 1234), "34");
    assert_eq!(digit_count(0), 1);
    assert_eq!(digit_count(9), 1);
    assert_eq!(digit_count(10), 2);
    assert_eq!(digit_count(u64::MAX), 20);
}

#[test]
fn a_number_is_the_prefix_of_its_buffer() {
    let mut n = [b'x'; 6];
    write_dec(&mut n, 7);
    assert_eq!(&n, b"7xxxxx");
    write_dec(&mut n, 120);
    assert_eq!(&n, b"120xxx");
    write_dec_u32(&mut n, 65536);
    assert_eq!(&n, b"65536x");
}

#[test]
fn hexadecimal_is_upper_case() {
    assert_eq!(hex_digit(9), b'9');
    assert_eq!(hex_digit(10), b'A');
    assert_eq!(hex_digit(0xF7), b'7');
    assert_eq!(hex_byte_tag(0xF9), *b"F9");
    assert_eq!(hex_byte_tag(0x82), *b"82");
    let mut v = [0u8; 6];
    assert_eq!(hex_u16(0x0A5F, &mut v), "0x0A5F");
    let mut chip = [1u8; 17];
    hex_bytes(&[0x00, 0x12, 0xAB, 0xFF, 0x80, 0x7F, 0x01, 0xE6], &mut chip);
    assert_eq!(&chip[..16], b"0012ABFF807F01E6");
    assert_eq!(chip[16], 0);
}

#[test]
fn texts_compare_by_content() {
    assert!(same_text("SHA1", "SHA1"));
    assert!(!same_text("SHA1", "SHA256"));
    assert!(!same_text("SHA1", "SHA2"));
    assert!(same_text("", ""));
}

#[test]
fn a_row_without_a_value_is_plain() {
    let mut row = RowBuf::empty();
    row.set(b"SEED", "YES", Tone::Good, true);
    assert_eq!((row.ll, row.rl, row.tone, row.exp), (4, 3, Tone::Good, true));
    // A reused row is reset in every field.
    row.set(b"APPLIED", "", Tone::Good, false);
    assert_eq!((row.ll, row.rl, row.tone, row.exp), (7, 0, Tone::Plain, false));
    let v = row_view(&row);
    assert_eq!(v.left, "APPLIED");
    assert_eq!(v.right, "");
    assert!(!v.emph);
}

#[test]
fn a_rows_columns_are_clamped() {
    let mut row = RowBuf::empty();
    let long = "x".repeat(50);
    row.set(long.as_bytes(), &"y".repeat(30), Tone::Warn, false);
    let v = row_view(&row);
    assert_eq!(v.left, "x".repeat(ROW_LEFT_MAX));
    assert_eq!(v.right, "y".repeat(ROW_RIGHT_MAX));
    assert_eq!(v.tone, Tone::Warn);
    row.set("caf\u{e9}".as_bytes(), "", Tone::Plain, false);
    assert_eq!(row_view(&row).left, "caf??");
}

#[test]
fn a_cursor_drops_what_its_section_has_no_room_for() {
    let mut rows = [RowBuf::empty(); 2];
    let mut c = Cursor::new(&mut rows);
    c.put(b"A", "1", Tone::Plain);
    c.put_exp(b"B", "2", Tone::Plain);
    c.put(b"C", "3", Tone::Plain);
    assert_eq!(c.finish(), 2);
    assert_eq!(row_view(&rows[0]).left, "A");
    assert_eq!(row_view(&rows[1]).left, "B");
    assert!(!rows[0].exp && rows[1].exp);
}

#[test]
fn a_cursor_touches_no_row_but_the_next() {
    let mut rows = [RowBuf::empty(); 4];
    for r in rows.iter_mut() {
        r.set(b"OLD", "1", Tone::Warn, true);
    }
    let mut c = Cursor::new(&mut rows);
    c.put(b"NEW", "", Tone::Plain);
    assert_eq!(c.finish(), 1);
    assert_eq!(row_view(&rows[0]).left, "NEW");
    for r in &rows[1..] {
        let v = row_view(r);
        assert_eq!((v.left.as_str(), v.right.as_str(), v.tone, r.exp), ("OLD", "1", Tone::Warn, true));
    }
}
