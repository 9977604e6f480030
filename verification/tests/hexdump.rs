//! The memory hexdump.

use lower_ir_utils::sim::dump::{hexdump_row, hexdump_rows, write_hexdump, write_hexdump_row};

#[test]
fn row_shows_address_hex_and_gutter() {
    let mut out = String::new();
    write_hexdump_row(&mut out, 0x20, b"ABCD\x00\x7f~ ");
    assert_eq!(
        out,
        "00000020: 41 42 43 44 00 7f 7e 20                           |ABCD..~         |\n"
    );
}

#[test]
fn full_row_splits_eight_and_eight() {
    let bytes: Vec<u8> = (0u8..16).collect();
    assert_eq!(
        hexdump_row(0, &bytes),
        "00000000: 00 01 02 03 04 05 06 07  08 09 0a 0b 0c 0d 0e 0f  |................|"
    );
}

#[test]
fn repeated_rows_fold_into_a_star() {
    let mut mem = vec![0u8; 80];
    mem[0] = b'A';
    let rows = hexdump_rows(&mem);
    assert_eq!(rows.len(), 4, "{rows:?}");
    assert!(rows[0].starts_with("00000000: 41 00"));
    assert!(rows[1].starts_with("00000010: 00 00"));
    assert_eq!(rows[2], "*");
    assert!(rows[3].starts_with("00000040: 00 00"), "the last row always shows: {rows:?}");
}

#[test]
fn short_last_row_and_empty_memory() {
    assert!(hexdump_rows(&[]).is_empty());
    let mut out = String::new();
    write_hexdump(&mut out, &[1, 2, 3]);
    assert_eq!(
        out,
        "00000000: 01 02 03                                          |...             |\n"
    );
}

#[test]
fn differing_rows_are_not_folded() {
    let mut mem = vec![0u8; 48];
    mem[20] = 1;
    let rows = hexdump_rows(&mem);
    assert_eq!(rows.len(), 3);
    assert!(!rows.iter().any(|r| r == "*"));
}
