use mixvm::word::Word;

#[test]
fn word_test_default() {
    assert!(!Word::default().read_sign());
    assert_eq!(Word::default().read_data(), 0);
}

#[test]
fn word_test_read() {
    let cases: [(u32, u32, bool); 8] = [
        (0b0000_0000_0000_0000_0000_0000_0000_0000, 0b0000_0000_0000_0000_0000_0000_0000_0000, false),
        (0b0000_0000_0000_0000_0000_0000_0000_0000, 0b0100_0000_0000_0000_0000_0000_0000_0000, true),
        (0b0010_0000_0000_0000_0000_0000_0000_0000, 0b0010_0000_0000_0000_0000_0000_0000_0000, false),
        (0b0010_0000_0000_0000_0000_0000_0000_0000, 0b0110_0000_0000_0000_0000_0000_0000_0000, true),
        (0b0111_1111_1111_1111_1111_1111_1111_1111, 0b0011_1111_1111_1111_1111_1111_1111_1111, false),
        (0b0111_1111_1111_1111_1111_1111_1111_1111, 0b0111_1111_1111_1111_1111_1111_1111_1111, true),
        (0b1111_1111_1111_1111_1111_1111_1111_1111, 0b0011_1111_1111_1111_1111_1111_1111_1111, false),
        (0b1111_1111_1111_1111_1111_1111_1111_1111, 0b0111_1111_1111_1111_1111_1111_1111_1111, true),
    ];
    for (number, expected, sign) in cases {
        assert_eq!(Word::new(number, Some(sign)).read(), expected);
    }
}

#[test]
fn word_test_read_data() {
    let cases: [(u32, u32); 6] = [
        (0b0000_0000_0000_0000_0000_0000_0000_0000, 0b0000_0000_0000_0000_0000_0000_0000_0000),
        (0b0100_0000_0000_0000_0000_0000_0000_0000, 0b0000_0000_0000_0000_0000_0000_0000_0000),
        (0b1100_0000_0000_0000_0000_0000_0000_0000, 0b0000_0000_0000_0000_0000_0000_0000_0000),
        (0b0011_1111_1111_1111_1111_1111_1111_1111, 0b0011_1111_1111_1111_1111_1111_1111_1111),
        (0b0111_1111_1111_1111_1111_1111_1111_1111, 0b0011_1111_1111_1111_1111_1111_1111_1111),
        (0b1111_1111_1111_1111_1111_1111_1111_1111, 0b0011_1111_1111_1111_1111_1111_1111_1111),
    ];
    for (number, expected) in cases {
        assert_eq!(Word::new(number, Some(true)).read_data(), expected);
    }
}

#[test]
fn word_test_from_value() {
    // Bit 30 of the pattern is the sign flag; bit 31 is discarded.
    let word = Word::from_value(0b0111_1111_1111_1111_1111_1111_1111_1111);
    assert!(word.read_sign());
    assert_eq!(word.read_data(), 0b0011_1111_1111_1111_1111_1111_1111_1111);
    let word = Word::from_value(0b1011_1111_1111_1111_1111_1111_1111_1111);
    assert!(!word.read_sign());
    assert_eq!(word.read_data(), 0b0011_1111_1111_1111_1111_1111_1111_1111);
}

#[test]
fn word_test_write() {
    let mut word = Word::default();
    word.write(0b1111_1111_1111_1111_1111_1111_1111_1111, true);
    assert_eq!(word.read(), 0b0111_1111_1111_1111_1111_1111_1111_1111);
    word.write(0b0010_0000_0000_0000_0000_0000_0000_0000, false);
    assert_eq!(word.read(), 0b0010_0000_0000_0000_0000_0000_0000_0000);
}

#[test]
fn word_test_write_data() {
    let cases: [(u32, u32); 4] = [
        (0b0000_0000_0000_0000_0000_0000_0000_0000, 0b0000_0000_0000_0000_0000_0000_0000_0000),
        (0b0100_0000_0000_0000_0000_0000_0000_0000, 0b0000_0000_0000_0000_0000_0000_0000_0000),
        (0b0011_1111_1111_1111_1111_1111_1111_1111, 0b0011_1111_1111_1111_1111_1111_1111_1111),
        (0b1111_1111_1111_1111_1111_1111_1111_1111, 0b0011_1111_1111_1111_1111_1111_1111_1111),
    ];
    for (number, expected) in cases {
        let mut word = Word::default();
        word.write_data(number);
        assert_eq!(word.read(), expected);
    }
}

#[test]
fn word_test_write_data_preserves_sign() {
    let mut word = Word::new(0, Some(true));
    word.write_data(0b0011_1111_1111_1111_1111_1111_1111_1111);
    assert!(word.read_sign());
    assert_eq!(word.read_data(), 0b0011_1111_1111_1111_1111_1111_1111_1111);
    let mut word = Word::new(123, Some(false));
    word.write_data(456);
    assert!(!word.read_sign());
    assert_eq!(word.read_data(), 456);
}

#[test]
fn word_test_read_sign() {
    let cases: [(u32, bool); 6] = [
        (0b0000_0000_0000_0000_0000_0000_0000_0000, false),
        (0b0100_0000_0000_0000_0000_0000_0000_0000, true),
        (0b0011_1111_1111_1111_1111_1111_1111_1111, false),
        (0b0111_1111_1111_1111_1111_1111_1111_1111, true),
        (0b1011_1111_1111_1111_1111_1111_1111_1111, false),
        (0b1111_1111_1111_1111_1111_1111_1111_1111, true),
    ];
    for (number, sign) in cases {
        assert_eq!(Word::new(number, Some(sign)).read_sign(), sign);
    }
}

#[test]
fn word_test_write_sign_preserves_data() {
    let cases: [(u32, u32, bool); 4] = [
        (0b0000_0000_0000_0000_0000_0000_0000_0000, 0b0000_0000_0000_0000_0000_0000_0000_0000, false),
        (0b0010_0000_0000_0000_0000_0000_0000_0000, 0b0010_0000_0000_0000_0000_0000_0000_0000, true),
        (0b0111_1111_1111_1111_1111_1111_1111_1111, 0b0011_1111_1111_1111_1111_1111_1111_1111, false),
        (0b1111_1111_1111_1111_1111_1111_1111_1111, 0b0011_1111_1111_1111_1111_1111_1111_1111, true),
    ];
    for (number, expected_data, sign) in cases {
        let mut word = Word::new(number, Some(sign));
        word.write_sign(!sign);
        assert_eq!(word.read_sign(), !sign);
        assert_eq!(word.read_data(), expected_data);
    }
}

#[test]
fn word_test_get_byte() {
    let cases: [(u32, u8, bool, usize); 12] = [
        (0b0100_0000_0000_0000_0000_0000_0000_0000, 0b0000_0001, true, 0),
        (0b0000_0000_0000_0000_0000_0000_0000_0000, 0b0000_0000, false, 0),
        (0b0111_1111_0000_0000_0000_0000_0000_0000, 0b0011_1111, true, 1),
        (0b0011_1111_1100_0000_0000_0000_0000_0000, 0b0011_1111, false, 1),
        (0b0100_0000_1111_1100_0000_0000_0000_0000, 0b0011_1111, true, 2),
        (0b0000_0000_1111_1111_0000_0000_0000_0000, 0b0011_1111, false, 2),
        (0b0100_0000_0000_0011_1111_0000_0000_0000, 0b0011_1111, true, 3),
        (0b0000_0000_0000_0011_1111_0000_0000_0000, 0b0011_1111, false, 3),
        (0b0100_0000_0000_0000_0000_1111_1100_0000, 0b0011_1111, true, 4),
        (0b0000_0000_0000_0000_0011_1111_1100_0000, 0b0011_1111, false, 4),
        (0b0100_0000_0000_0000_0000_0000_0011_1111, 0b0011_1111, true, 5),
        (0b0000_0000_0000_0000_0000_0000_1111_1111, 0b0011_1111, false, 5),
    ];
    for (number, expected, sign, index) in cases {
        assert_eq!(Word::new(number, Some(sign)).get_byte(index), expected);
    }
}

#[test]
fn word_test_read_with_modifier() {
    let cases: [(u32, u32, bool, u32); 22] = [
        (0b0000_0000_0000_0000_0000_0000_0000_0000, 0b0000_0000_0000_0000_0000_0000_0000_0000, false, 0),
        (0b0100_0000_0000_0000_0000_0000_0000_0000, 0b0000_0000_0000_0000_0000_0000_0000_0001, true, 0),
        (0b0011_1111_0000_0000_0000_0000_0000_0000, 0b0000_0000_0000_0000_0000_0000_0011_1111, false, 1),
        (0b0011_1111_1111_1100_0000_0000_0000_0000, 0b0000_0000_0000_0000_0000_0000_0011_1111, false, 1),
        (0b0010_1010_0000_0000_0000_0000_0000_0000, 0b0000_0000_0000_0000_0000_0000_0110_1010, true, 1),
        (0b0110_1010_0000_0000_0000_0000_0000_0000, 0b0000_0000_0000_0000_0000_0000_0110_1010, true, 1),
        (0b0011_1111_1111_1100_0000_0000_0000_0000, 0b0000_0000_0000_0000_0000_1111_1111_1111, false, 2),
        (0b0111_1111_1111_1100_0000_0000_0000_0000, 0b0000_0000_0000_0000_0000_1111_1111_1111, false, 2),
        (0b0011_1111_1111_1100_0000_0000_0000_0000, 0b0000_0000_0000_0000_0001_1111_1111_1111, true, 2),
        (0b0111_1111_1111_1100_0000_0000_0000_0000, 0b0000_0000_0000_0000_0001_1111_1111_1111, true, 2),
        (0b0011_1111_1111_1111_1111_1111_1111_1111, 0b0011_1111_1111_1111_1111_1111_1111_1111, false, 5),
        (0b0111_1111_1111_1111_1111_1111_1111_1111, 0b0011_1111_1111_1111_1111_1111_1111_1111, false, 5),
        (0b0111_1111_1111_1111_1111_1111_1111_1111, 0b0111_1111_1111_1111_1111_1111_1111_1111, true, 5),
        (0b1111_1111_1111_1111_1111_1111_1111_1111, 0b0111_1111_1111_1111_1111_1111_1111_1111, true, 5),
        (0b0011_1111_1111_1100_0000_0000_0000_0000, 0b0000_0000_0000_0000_0000_1111_1111_1111, false, 12),
        (0b0111_1111_1111_1100_0000_0000_0000_0000, 0b0000_0000_0000_0000_0000_1111_1111_1111, true, 12),
        (0b0000_0001_1111_1110_0000_0000_0000_0000, 0b0000_0000_0000_0000_0000_0000_0011_1111, false, 22),
        (0b0000_0001_1111_1110_0000_0000_0000_0000, 0b0000_0000_0000_0000_0000_0000_0011_1111, true, 22),
        (0b0000_0000_0000_0011_1111_1111_1100_0000, 0b0000_0000_0000_0000_0000_1111_1111_1111, false, 34),
        (0b0000_0000_0000_0000_0000_1111_1111_1111, 0b0000_0000_0000_0000_0000_1111_1111_1111, false, 45),
        (0b0000_0000_0000_0000_0000_0000_0011_1111, 0b0000_0000_0000_0000_0000_0000_0011_1111, false, 55),
        (0b0000_0000_0000_0000_0000_0000_0111_1111, 0b0000_0000_0000_0000_0000_0000_0011_1111, true, 55),
    ];
    for (number, expected, sign, modifier) in cases {
        assert_eq!(Word::new(number, Some(sign)).read_with_modifier(modifier), expected);
    }
}

#[test]
fn word_test_field_extraction_convention() {
    // Sign flag set, the most significant data byte (position 1) all ones.
    let word = Word::new(0b0011_1111_0000_0000_0000_0000_0000_0000, Some(true));
    // Modifier 0 reads the sign alone, as 0 or 1.
    assert_eq!(word.read_with_modifier(0), 1);
    // A field that starts at position 0 folds the sign in as its leading bit.
    assert_eq!(word.read_with_modifier(1), 0b0111_1111);
    // Byte position 1 alone, without the sign.
    assert_eq!(word.read_with_modifier(11), 0b0011_1111);
    // Byte position 2 is clear.
    assert_eq!(word.read_with_modifier(22), 0);
}
