use morse_kodeboard::key_mapping::char_to_hid_u8;

/// Every letter maps to its HID scan code.
#[test]
fn letters_map_to_scan_codes() {
    let expected: [(char, u8); 26] = [
        ('a', 0x04),
        ('b', 0x05),
        ('c', 0x06),
        ('d', 0x07),
        ('e', 0x08),
        ('f', 0x09),
        ('g', 0x0A),
        ('h', 0x0B),
        ('i', 0x0C),
        ('j', 0x0D),
        ('k', 0x0E),
        ('l', 0x0F),
        ('m', 0x10),
        ('n', 0x11),
        ('o', 0x12),
        ('p', 0x13),
        ('q', 0x14),
        ('r', 0x15),
        ('s', 0x16),
        ('t', 0x17),
        ('u', 0x18),
        ('v', 0x19),
        ('w', 0x1A),
        ('x', 0x1B),
        ('y', 0x1C),
        ('z', 0x1D),
    ];
    for (c, code) in expected.iter() {
        assert_eq!(char_to_hid_u8(*c), Some(*code), "wrong code for {c}");
    }
}

/// Digits and space map to their HID scan codes; digit scan codes start
/// at `1`, with `0` at the end of the row.
#[test]
fn digits_and_space_map_to_scan_codes() {
    let expected: [(char, u8); 11] = [
        ('1', 0x1E),
        ('2', 0x1F),
        ('3', 0x20),
        ('4', 0x21),
        ('5', 0x22),
        ('6', 0x23),
        ('7', 0x24),
        ('8', 0x25),
        ('9', 0x26),
        ('0', 0x27),
        (' ', 0x2C),
    ];
    for (c, code) in expected.iter() {
        assert_eq!(char_to_hid_u8(*c), Some(*code), "wrong code for {c:?}");
    }
}

/// Anything outside the alphabet plus space is unsupported.
#[test]
fn unsupported_characters_map_to_none() {
    for c in ['A', 'Z', '!', '.', '-', '\n', 'é'] {
        assert_eq!(char_to_hid_u8(c), None, "unexpected code for {c:?}");
    }
}
