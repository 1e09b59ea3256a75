use xproxy::utils::{decimal_chars, hex_chars, hex_nibble, hexa, hexdump};

#[test]
fn hex_nibble_digits_and_letters() {
    assert_eq!(hex_nibble(0), '0');
    assert_eq!(hex_nibble(9), '9');
    assert_eq!(hex_nibble(10), 'A');
    assert_eq!(hex_nibble(15), 'F');
}

#[test]
fn hex_nibble_out_of_range_is_zero() {
    assert_eq!(hex_nibble(16), '0');
    assert_eq!(hex_nibble(255), '0');
}

#[test]
fn hexa_two_digits() {
    assert_eq!(hexa(0x00), "00");
    assert_eq!(hexa(0x0F), "0F");
    assert_eq!(hexa(0xA5), "A5");
    assert_eq!(hexa(0xFF), "FF");
}

#[test]
fn hexa_distinct_bytes_render_differently() {
    let mut seen = std::collections::HashSet::new();
    for b in 0..=255u8 {
        assert!(seen.insert(hexa(b)));
    }
}

#[test]
fn decimal_and_hex_numerals() {
    assert_eq!(decimal_chars(0), vec!['0']);
    assert_eq!(decimal_chars(443), vec!['4', '4', '3']);
    assert_eq!(decimal_chars(65535), vec!['6', '5', '5', '3', '5']);
    assert_eq!(hex_chars(0), vec!['0']);
    assert_eq!(hex_chars(16), vec!['1', '0']);
    assert_eq!(hex_chars(0x2AF), vec!['2', 'A', 'F']);
}

#[test]
fn hexdump_empty() {
    assert_eq!(hexdump(vec![]), "0: ");
}

#[test]
fn hexdump_single_byte() {
    assert_eq!(hexdump(vec![0]), "0: 00 ");
}

#[test]
fn hexdump_short_row_is_padded() {
    assert_eq!(
        hexdump(b"AB".to_vec()),
        "0: 41 42 00 00 00 00 00 00 00 00 00 00 00 00 00 00 00 A"
    );
}

#[test]
fn hexdump_two_rows() {
    let data: Vec<u8> = (0x30..0x30 + 20).collect();
    assert_eq!(
        hexdump(data),
        "0: 30 31 32 33 34 35 36 37 38 39 3A 3B 3C 3D 3E 3F 40 0123456789:;<=>?\n10: 41 42 43 00 00 00 00 00 00 00 00 00 00 00 00 00 @AB"
    );
}

#[test]
fn hexdump_last_byte_at_row_start() {
    let data: Vec<u8> = (0x40..0x40 + 17).collect();
    assert_eq!(
        hexdump(data),
        "0: 40 41 42 43 44 45 46 47 48 49 4A 4B 4C 4D 4E 4F 50 "
    );
}

#[test]
fn hexdump_non_printable_bytes_show_as_dots() {
    let mut data: Vec<u8> = (0..16u8).map(|i| 0x10 * i + i).collect();
    data.extend_from_slice(b"hello world, this is 34 bytes!");
    assert_eq!(
        hexdump(data),
        "0: 00 11 22 33 44 55 66 77 88 99 AA BB CC DD EE FF 68 ..\"3DUfw........\n10: 65 6C 6C 6F 20 77 6F 72 6C 64 2C 20 74 68 69 73 hello.world,.thi\n20: 20 69 73 20 33 34 20 62 79 74 65 73 21 00 00 00 s.is.34.bytes"
    );
}
