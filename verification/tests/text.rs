//! Text, lengths, tallies and relationships.

use typst_docx::length::{POINT, Rel, abs_to_twip, add_sat, round_div_i128};
use typst_docx::rels::{RelMode, Rels};
use typst_docx::tally::{mode, mode_bool, weighted_mode};
use typst_docx::text::{
    blank, concat3, contains_str, dec_i64, dec_u64, digit_of, hex, hex_u32, parse_u8,
    push_hex_lower, strip_prefix, strip_suffix, white,
};

#[test]
fn white_space_is_what_the_language_says() {
    for c in '\0'..=char::MAX {
        assert_eq!(white(c), c.is_whitespace(), "{:x}", c as u32);
    }
    assert!(blank("") && blank(" \u{a0}\t") && !blank(" x "));
}

#[test]
fn numbers_are_written_in_full() {
    for n in [0, 1, 9, 10, 99, 12345, u64::MAX] {
        assert_eq!(dec_u64(n), format!("{n}"));
    }
    for n in [0, -1, 42, i64::MIN, i64::MAX] {
        assert_eq!(dec_i64(n), format!("{n}"));
    }
    assert_eq!(hex([0, 171, 255]), "00ABFF");
    assert_eq!(hex_u32(0xBEEF), "0000BEEF");
    for n in [0, 255, u128::MAX] {
        let mut s = String::from("x");
        push_hex_lower(&mut s, n, 32);
        assert_eq!(s, format!("x{n:032x}"));
    }
}

#[test]
fn bytes_are_parsed_like_the_language_does() {
    let texts = ["", "+", "0", "+7", "007", "255", "256", "1000", "-1", "1 ", "x", "++1", "12a"];
    for s in texts {
        assert_eq!(parse_u8(s), s.parse::<u8>().ok(), "{s:?}");
    }
    assert_eq!(digit_of('7'), Some(7));
    assert_eq!(digit_of('\u{663}'), None);
}

#[test]
fn affixes_are_stripped() {
    assert_eq!(strip_prefix("word/media/a", "word/").as_deref(), Some("media/a"));
    assert_eq!(strip_prefix("wor", "word/"), None);
    assert_eq!(strip_suffix("c-1-end", "-end").as_deref(), Some("c-1"));
    assert_eq!(strip_suffix("end", "-end"), None);
    assert!(contains_str("abcabd", "abd") && !contains_str("ab", "abd") && contains_str("", ""));
    assert_eq!(concat3("a", "", "c"), "ac");
}

#[test]
fn halves_round_away_from_zero() {
    for (n, d, q) in [(5, 2, 3), (-5, 2, -3), (7, 3, 2), (-7, 3, -2), (0, 9, 0), (1, 3, 0)] {
        assert_eq!(round_div_i128(n, d), q);
    }
    for pt in [0.0, 0.024, 0.025, 0.5, -0.025, 12.0, 595.28, -3.3] {
        let units = (pt * POINT as f64).round() as i64;
        assert_eq!(abs_to_twip(units) as f64, (pt * 20.0).round());
    }
    assert_eq!(abs_to_twip(i64::MAX), i32::MAX);
    assert_eq!(add_sat(i32::MAX, 1), i32::MAX);
    assert_eq!(add_sat(i32::MIN, -1), i32::MIN);
    assert_eq!(add_sat(3, -4), -1);
}

#[test]
fn relative_lengths_add_their_parts() {
    let half = Rel { abs: POINT, ratio: 500_000 };
    assert_eq!(half.relative_to(10 * POINT), 6 * POINT);
}

#[test]
fn a_weighted_tie_has_no_winner() {
    assert_eq!(mode(&vec![]), None);
    let keys = vec![vec![2], vec![1], vec![2], vec![1]];
    let k = mode(&keys).unwrap();
    assert_eq!(keys[k], vec![1]);
    assert_eq!(weighted_mode(&keys, &vec![1, 2, 2, 1]), None);
    assert_eq!(weighted_mode(&vec![], &vec![]), None);
    let k = weighted_mode(&keys, &vec![1, 2, 3, 1]).unwrap();
    assert_eq!(keys[k], vec![2]);
    assert!(mode_bool(&vec![true, false]));
    assert!(!mode_bool(&vec![true, false, false]));
    assert!(mode_bool(&vec![]));
}

#[test]
fn equal_relationships_share_an_identifier() {
    let mut rels = Rels::new();
    assert_eq!(rels.add_rel("t", "a", RelMode::Internal), "rId1");
    assert_eq!(rels.add_rel("t", "b", RelMode::Internal), "rId2");
    assert_eq!(rels.add_rel("t", "a", RelMode::Internal), "rId1");
    assert_eq!(rels.add_rel("t", "a", RelMode::External), "rId3");
    let mark = rels.savepoint();
    assert_eq!(rels.add_rel("u", "a", RelMode::Internal), "rId4");
    rels.rollback(mark);
    assert_eq!(rels.entries.len(), 3);
    assert_eq!(rels.add_rel("u", "c", RelMode::Internal), "rId4");
}
