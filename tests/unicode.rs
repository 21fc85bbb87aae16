use std::cmp::Ordering;

use quake_text::unicode::{normalize, ord, sort, to_ascii, to_bytestr, to_utf8};

#[test]
fn test_to_utf8() {
    let gold_brackets = (16..=17).map(char::from).collect::<String>();
    assert_eq!(to_utf8(&gold_brackets), "[]");

    let green_numbers = (18..=27).map(char::from).collect::<String>();
    assert_eq!(to_utf8(&green_numbers), "0123456789");

    let ascii_chars = (32..=126).map(char::from).collect::<String>();
    assert_eq!(to_utf8(&ascii_chars), ascii_chars);

    let mixed_chars = (28..=40).map(char::from).collect::<String>();
    assert_eq!(to_utf8(&mixed_chars), "•    !\"#$%&'(");
}

#[test]
fn test_ord() {
    let values = vec![
        "BÏÏM0".to_string(),
        "Axe2".to_string(),
        "bÏÏm1".to_string(),
        "áøå1".to_string(),
    ];
    assert_eq!(
        sort(&values),
        vec![
            "áøå1".to_string(),
            "Axe2".to_string(),
            "BÏÏM0".to_string(),
            "bÏÏm1".to_string(),
        ]
    );
}

#[test]
fn ord_examples() {
    assert_eq!(ord("BÏÏM", "boom"), Ordering::Equal);
    assert_eq!(ord("áøå1", "axe2"), Ordering::Less);
    assert_eq!(ord("axe2", "áøå1"), Ordering::Greater);
    assert_eq!(ord("ab", "abc"), Ordering::Less);
    assert_eq!(ord("", ""), Ordering::Equal);
}

#[test]
fn ord_agrees_with_normalize() {
    let words = ["BÏÏM", "boom", "áøå1", "axe2", "Axe", "", "[1]", "\u{5}x"];
    for a in words {
        for b in words {
            let (na, nb) = (normalize(a), normalize(b));
            assert_eq!(ord(a, b), na.cmp(&nb), "{:?} {:?}", a, b);
            assert_eq!(ord(a, b) == Ordering::Equal, na == nb);
        }
    }
}

#[test]
fn to_bytestr_truncates() {
    assert_eq!(to_bytestr("áøå"), vec![225, 248, 229]);
    assert_eq!(to_bytestr("\u{123}"), vec![0x23]);
    assert_eq!(to_bytestr(""), Vec::<u8>::new());
}

#[test]
fn unicode_to_ascii() {
    assert_eq!(to_ascii("áøå"), "axe");
    assert_eq!(to_ascii("\u{5}\u{10}`"), "_['");
}

#[test]
fn unicode_to_utf8_markers() {
    assert_eq!(to_utf8("áøå"), "axe");
    let markers: String = [0u8, 5, 14, 15, 28, 128].iter().map(|&b| char::from(b)).collect();
    assert_eq!(to_utf8(&markers), "••••••");
    let blanks: String = [1u8, 13, 29, 31, 127, 255].iter().map(|&b| char::from(b)).collect();
    assert_eq!(to_utf8(&blanks), "      ");
    // the colour bit is stripped
    let bright: String = (32..=126u8).map(char::from).collect();
    let dim: String = (160..=254u8).map(char::from).collect();
    assert_eq!(to_utf8(&dim), to_utf8(&bright));
}

#[test]
fn normalize_examples() {
    assert_eq!(normalize("BÏÏM"), "boom");
    assert_eq!(normalize("AxE[1]"), "axe[1]");
    assert_eq!(normalize("\u{5}Z"), "•z");
}

#[test]
fn normalize_idempotent() {
    for s in ["BÏÏM", "Axe2", "áøå1", "[Z]", "", "~@^"] {
        let n = normalize(s);
        assert_eq!(normalize(&n), n);
    }
    // the bullet does not survive a second pass
    assert_eq!(normalize(&normalize("\u{5}")), "\"");
}

#[test]
fn sort_keeps_order_of_equal_keys() {
    let values: Vec<String> = ["boom", "BOOM", "áøå", "BÏÏM", "axe", "bOOm"]
        .iter()
        .map(|s| s.to_string())
        .collect();
    assert_eq!(
        sort(&values),
        vec!["áøå", "axe", "boom", "BOOM", "BÏÏM", "bOOm"]
    );
    assert_eq!(sort(&[]), Vec::<String>::new());
}
