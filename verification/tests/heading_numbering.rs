//! Multilevel heading numbers.

use typst_docx::dom::{
    Block, HeadingStyle, ListLevel, MultiLevelType, NumFmt, NumberingTable, Para, ParaChild,
    ParaProps, Run, RunProps,
};
use typst_docx::heading_numbering::{
    HeadingNumber, HeadingPattern, Outcome, Parts, apply, derive_levels, format_counter, letter,
    plan, render, replay, roman,
};
use typst_docx::report::DecisionReason;

fn level(fmt: NumFmt, lvl_text: &str) -> ListLevel {
    ListLevel {
        num_fmt: fmt,
        lvl_text: lvl_text.into(),
        start: 1,
        ind_left: 0,
        ind_hanging: 0,
        bullet_font: None,
        pstyle: None,
    }
}

#[test]
fn levels_render_each_component_in_its_own_format() {
    let levels = vec![
        level(NumFmt::UpperLetter, "%1"),
        level(NumFmt::Decimal, "%1.%2"),
        level(NumFmt::LowerRoman, "%1.%2.%3"),
    ];
    assert_eq!(render(&levels, 0, &vec![3, 0, 0]).unwrap(), "C");
    assert_eq!(render(&levels, 1, &vec![3, 2, 0]).unwrap(), "C.2");
    assert_eq!(render(&levels, 2, &vec![3, 2, 4]).unwrap(), "C.2.iv");
}

#[test]
fn a_skipped_level_renders_as_word_does() {
    let levels = vec![level(NumFmt::Decimal, "%1"), level(NumFmt::Decimal, "%1.%2")];
    assert_eq!(render(&levels, 1, &vec![0, 1]).unwrap(), "0.1");
    // A roman or alphabetic level has no zero, so there is nothing that could
    // agree with the rendered number.
    let alpha = vec![level(NumFmt::UpperLetter, "%1"), level(NumFmt::Decimal, "%1.%2")];
    assert!(render(&alpha, 1, &vec![0, 1]).is_none());
}

#[test]
fn word_alphabetic_numbering_repeats_rather_than_carries() {
    assert_eq!(letter(1, 'a').unwrap(), "a");
    assert_eq!(letter(26, 'A').unwrap(), "Z");
    assert_eq!(letter(27, 'a').unwrap(), "aa");
    assert_eq!(letter(53, 'a').unwrap(), "aaa");
}

#[test]
fn roman_numerals_match_the_shared_range() {
    assert_eq!(roman(4).unwrap(), "IV");
    assert_eq!(roman(1990).unwrap(), "MCMXC");
    assert!(roman(4000).is_none());
}

#[test]
fn counters_are_written_in_every_format() {
    assert_eq!(format_counter(NumFmt::Decimal, 12).unwrap(), "12");
    assert_eq!(format_counter(NumFmt::LowerLetter, 28).unwrap(), "bb");
    assert_eq!(format_counter(NumFmt::UpperRoman, 49).unwrap(), "XLIX");
    assert_eq!(format_counter(NumFmt::LowerRoman, 3999).unwrap(), "mmmcmxcix");
    assert!(format_counter(NumFmt::UpperRoman, 0).is_none());
}

fn text(style: Option<&str>, text: &str) -> ParaChild {
    let mut props = RunProps::default();
    props.style = style.map(|s| s.to_string());
    ParaChild::Run(Run::Text { props, text: text.into() })
}

fn heading(level: u8, number: &str, title: &str) -> Block {
    let mut props = ParaProps::default();
    props.style = Some(format!("Heading{level}"));
    props.outline_lvl = Some(level - 1);
    let style = format!("TypstHeadingNumber{level}");
    Block::Para(Para { props, content: vec![text(Some(&style), number), text(None, title)] })
}

fn nine_levels() -> Vec<ListLevel> {
    let mut levels = Vec::new();
    let mut pattern = String::new();
    for i in 1..=9 {
        if i > 1 {
            pattern.push('.');
        }
        pattern.push_str(&format!("%{i}"));
        levels.push(level(NumFmt::Decimal, &pattern));
    }
    levels
}

fn styles() -> Vec<HeadingStyle> {
    vec![HeadingStyle { level: 1, rpr: RunProps::default(), spacing: None, num_id: None }]
}

fn parts(body: Vec<Block>) -> Parts {
    Parts { body, footnotes: vec![], headers: vec![], footers: vec![] }
}

#[test]
fn numbers_go_live_when_the_replay_agrees() {
    let mut parts = parts(vec![heading(1, "1", "Intro"), heading(2, "1.1", "Scope")]);
    let mut numbering = NumberingTable::default();
    let mut styles = styles();
    let levels = nine_levels();
    let outcome = apply(&mut parts, Some(&levels), &mut numbering, &mut styles);
    assert!(matches!(outcome, Outcome::Live(1)));
    assert_eq!(styles[0].num_id, Some(1));
    assert_eq!(numbering.abstracts.len(), 1);
    assert_eq!(numbering.abstracts[0].multilevel, MultiLevelType::Multilevel);
    match &parts.body[0] {
        Block::Para(para) => assert_eq!(para.content.len(), 1),
        _ => panic!("the heading is gone"),
    }
}

#[test]
fn numbers_stay_frozen_when_one_of_them_disagrees() {
    let mut parts = parts(vec![heading(1, "1", "Intro"), heading(1, "5", "Scope")]);
    let mut numbering = NumberingTable::default();
    let mut styles = styles();
    let levels = nine_levels();
    let outcome = apply(&mut parts, Some(&levels), &mut numbering, &mut styles);
    assert!(matches!(outcome, Outcome::Frozen(_)));
    assert_eq!(styles[0].num_id, None);
    assert!(numbering.abstracts.is_empty());
}

#[test]
fn a_document_without_numbers_is_left_alone() {
    let mut parts = parts(vec![Block::FlowSpace { dxa: 20 }]);
    let mut numbering = NumberingTable::default();
    let mut styles = styles();
    let outcome = apply(&mut parts, None, &mut numbering, &mut styles);
    assert!(matches!(outcome, Outcome::Unnumbered));
}

#[test]
fn a_missing_pattern_has_no_levels() {
    let none: Option<&HeadingPattern> = None;
    assert!(derive_levels(none).is_none());
}

fn sequence(numbers: &[(u8, Option<&str>)]) -> Vec<HeadingNumber> {
    numbers
        .iter()
        .map(|(level, number)| HeadingNumber { level: *level, number: number.map(String::from) })
        .collect()
}

#[test]
fn plans_go_by_the_sequence_they_are_given() {
    let levels = vec![level(NumFmt::Decimal, "%1"), level(NumFmt::Decimal, "%1.%2")];
    let parts = Parts { body: vec![], footnotes: vec![], headers: vec![], footers: vec![] };
    let good = sequence(&[
        (1, Some("1")),
        (1, None),
        (10, Some("9")),
        (2, Some("1.1")),
        (1, Some("2")),
        (2, Some("2.1")),
    ]);
    let own = plan(&good, Some(&levels), &parts).unwrap();
    let texts: Vec<&str> = own.iter().map(|l| l.lvl_text.as_str()).collect();
    assert_eq!(texts, vec!["%1", "%1.%2"]);
    let bad = sequence(&[(1, Some("1")), (1, Some("3"))]);
    let reason = DecisionReason::TypstOwnedHeadingNumber;
    assert_eq!(plan(&bad, Some(&levels), &parts).err(), Some(reason));
    assert_eq!(plan(&good, None, &parts).err(), Some(reason));
    assert!(!replay(&levels, &sequence(&[(3, Some("1.1.1"))])));
    assert!(replay(&levels, &sequence(&[(3, None)])));
}

#[test]
fn numerals_differ() {
    let value = |c: char| match c {
        'M' => 1000,
        'D' => 500,
        'C' => 100,
        'L' => 50,
        'X' => 10,
        'V' => 5,
        _ => 1,
    };
    for n in 1..=3999 {
        let letters: Vec<u64> = roman(n).unwrap().chars().map(value).collect();
        let mut sum = 0;
        for (i, v) in letters.iter().enumerate() {
            if letters.get(i + 1).is_some_and(|next| v < next) {
                sum -= *v as i64;
            } else {
                sum += *v as i64;
            }
        }
        assert_eq!(sum, n as i64);
    }
}
