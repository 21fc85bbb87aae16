use quake_text::charset::{ascii_fold, ascii_table, CharColor};

#[test]
fn test_char_color() {
    let mut test_cases = vec![];

    // row 0
    test_cases.extend([
        Some(CharColor::White),
        None,
        None,
        None,
        None,
        Some(CharColor::White),
        None,
        None,
        None,
        None,
        None,
        Some(CharColor::White),
        None,
        Some(CharColor::Brown),
        Some(CharColor::White),
        Some(CharColor::White),
    ]);

    // row 1
    test_cases.extend([
        Some(CharColor::Brown),
        Some(CharColor::Brown),
        Some(CharColor::Green),
        Some(CharColor::Green),
        Some(CharColor::Green),
        Some(CharColor::Green),
        Some(CharColor::Green),
        Some(CharColor::Green),
        Some(CharColor::Green),
        Some(CharColor::Green),
        Some(CharColor::Green),
        Some(CharColor::Green),
        Some(CharColor::White),
        None,
        None,
        None,
    ]);

    // rows 2-7
    for _ in 0..6 * 16 {
        test_cases.push(Some(CharColor::White));
    }

    // row 8
    test_cases.extend([
        None,
        None,
        None,
        None,
        None,
        Some(CharColor::Green),
        None,
        None,
        None,
        None,
        None,
        Some(CharColor::Brown),
        None,
        Some(CharColor::Brown),
        Some(CharColor::Green),
        Some(CharColor::Green),
    ]);

    // row 9
    test_cases.extend([
        Some(CharColor::Brown),
        Some(CharColor::Brown),
        Some(CharColor::Green),
        Some(CharColor::Green),
        Some(CharColor::Green),
        Some(CharColor::Green),
        Some(CharColor::Green),
        Some(CharColor::Green),
        Some(CharColor::Green),
        Some(CharColor::Green),
        Some(CharColor::Green),
        Some(CharColor::Green),
        Some(CharColor::Green),
        None,
        None,
        None,
    ]);

    // rows 10-15
    for _ in 0..6 * 16 {
        test_cases.push(Some(CharColor::Brown));
    }

    assert_eq!(test_cases.len(), 256);
    for (byte, expected) in test_cases.iter().enumerate() {
        assert_eq!(
            CharColor::from_byte(byte as u8),
            *expected,
            "{} [{},{}] = {:?}",
            byte,
            byte as u8 % 16,
            byte as u8 / 16,
            expected,
        );
    }
}

#[test]
fn from_char_uses_low_byte() {
    assert_eq!(CharColor::from_char('a'), Some(CharColor::White));
    assert_eq!(CharColor::from_char('\u{e1}'), Some(CharColor::Brown));
    assert_eq!(CharColor::from_char('\u{1}'), None);
    // U+0161 has low byte 0x61 = 'a'
    assert_eq!(CharColor::from_char('\u{161}'), Some(CharColor::White));
    // U+2022 has low byte 0x22 = '"'
    assert_eq!(CharColor::from_char('\u{2022}'), Some(CharColor::White));
    assert_eq!(CharColor::from_char('\u{85}'), Some(CharColor::Green));
}

#[test]
fn ascii_fold_table() {
    let table = "________________[]0123456789____ !\"#$%&'()*+,-./0123456789:;<=>?@ABCDEFGHIJKLMNOPQRSTUVWXYZ[\\]^_'abcdefghijklmnopqrstuvwxyz{|}~_";
    let half = table.as_bytes();
    assert_eq!(half.len(), 128);
    for b in 0..=255u8 {
        assert_eq!(ascii_fold(b), half[(b % 128) as usize], "byte {}", b);
    }
    assert_eq!(ascii_fold(5), b'_');
    assert_eq!(ascii_fold(16), b'[');
    assert_eq!(ascii_fold(145), b']');
    assert_eq!(ascii_fold(27), b'9');
    assert_eq!(ascii_fold(96), b'\'');
    assert_eq!(ascii_fold(94), b'^');
    assert_eq!(ascii_fold(127), b'_');
    assert_eq!(ascii_fold(255), b'_');
}

#[test]
fn ascii_table_whole() {
    let table = "________________[]0123456789____ !\"#$%&'()*+,-./0123456789:;<=>?@ABCDEFGHIJKLMNOPQRSTUVWXYZ[\\]^_'abcdefghijklmnopqrstuvwxyz{|}~_________________[]0123456789____ !\"#$%&'()*+,-./0123456789:;<=>?@ABCDEFGHIJKLMNOPQRSTUVWXYZ[\\]^_'abcdefghijklmnopqrstuvwxyz{|}~_";
    assert_eq!(table.len(), 256);
    assert_eq!(ascii_table(), table.as_bytes().to_vec());
    assert!(ascii_table().iter().all(|&c| (0x20..=0x7e).contains(&c)));
}
