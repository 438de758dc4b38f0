use pnos_runtime::sort::sort;
use pnos_runtime::table::Table;
use pnos_runtime::text::{
    decimal, ends_with, order, parse_unsigned, replace, starts_with, strip_prefix, strip_suffix,
    trim, trim_end_matches, Order,
};

#[test]
fn tables_keep_their_rows_in_order() {
    let mut t: Table<u64> = Table::new();
    assert_eq!(t.insert("b".to_string(), 2), None);
    assert_eq!(t.insert("a".to_string(), 1), None);
    assert_eq!(t.insert("b".to_string(), 3), Some(2));
    assert_eq!(t.len(), 2);
    assert_eq!(t.key_at(0), "a");
    assert_eq!(*t.value_at(1), 3);
    assert!(t.contains_key("a"));
    assert_eq!(t.get("a"), Some(&1));
    match t.get_mut("a") {
        Some(v) => *v = 9,
        None => panic!("the row is there"),
    }
    assert_eq!(t.remove("a"), Some(9));
    assert_eq!(t.remove("a"), None);
    assert_eq!(t.len(), 1);
}

#[test]
fn texts_are_ordered_by_their_bytes() {
    let words = ["", "a", "aa", "b", "é", "z", "中", "😀", "\u{ffff}"];
    for x in words {
        for y in words {
            let expected = if x < y {
                Order::Less
            } else if x == y {
                Order::Equal
            } else {
                Order::Greater
            };
            assert_eq!(order(x, y), expected);
        }
    }
}

#[test]
fn texts_are_taken_apart() {
    assert!(starts_with("abc", "ab"));
    assert!(!starts_with("a", "ab"));
    assert!(ends_with("abc", "bc"));
    assert_eq!(strip_prefix("abc", "ab"), Some("c".to_string()));
    assert_eq!(strip_prefix("abc", "x"), None);
    assert_eq!(strip_suffix("a*", "*"), Some("a".to_string()));
    assert_eq!(trim_end_matches("xyy", "y"), "x");
    assert_eq!(trim("\t a b \u{3000}\n"), "a b");
    assert_eq!(replace("aXbX", "X", "--"), "a--b--");
    assert_eq!(replace("aaa", "aa", "b"), "ba");
}

#[test]
fn white_space_is_that_of_std() {
    for n in 0..0x11_0000u32 {
        if let Some(c) = char::from_u32(n) {
            assert_eq!(pnos_runtime::text::white(c), c.is_whitespace());
        }
    }
}

#[test]
fn numbers_are_written_and_read() {
    for n in [0u64, 7, 10, 99, 100, 65535, u64::MAX] {
        assert_eq!(decimal(n), n.to_string());
        assert_eq!(parse_unsigned(&n.to_string(), u64::MAX), Some(n));
    }
    for s in ["", "+", "-1", " 1", "1 ", "18446744073709551616", "0x1", "1_0", "٣"] {
        assert_eq!(parse_unsigned(s, u64::MAX), s.parse::<u64>().ok());
    }
    assert_eq!(parse_unsigned("+007", u64::MAX), Some(7));
    assert_eq!(parse_unsigned("65536", 65535), None);
}

#[test]
fn numbers_are_sorted() {
    assert_eq!(sort(&vec![]), Vec::<u64>::new());
    assert_eq!(sort(&vec![3, 1, 2, 1]), vec![1, 1, 2, 3]);
}
