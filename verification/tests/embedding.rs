//! Embedded fonts and text defaults.

use typst_docx::document::embedding::{
    FontFace, FontFamily, FontProgram, Permission, collect_embeddable_fonts, embedded_font_style,
    may_embed, text_defaults_from_styles,
};
use typst_docx::dom::EmbeddedFontStyle;

fn push_u16(out: &mut Vec<u8>, n: u16) {
    out.extend(n.to_be_bytes());
}

fn push_u32(out: &mut Vec<u8>, n: u32) {
    out.extend(n.to_be_bytes());
}

/// A font without glyphs, whose OS/2 table has a version and a type.
fn font(os2_version: u16, fs_type: u16) -> Vec<u8> {
    let mut head = vec![0u8; 54];
    head[0..4].copy_from_slice(&[0, 1, 0, 0]);
    head[12..16].copy_from_slice(&[0x5f, 0x0f, 0x3c, 0xf5]);
    head[18..20].copy_from_slice(&1000u16.to_be_bytes());
    let mut hhea = vec![0u8; 36];
    hhea[0..4].copy_from_slice(&[0, 1, 0, 0]);
    hhea[34..36].copy_from_slice(&1u16.to_be_bytes());
    let mut maxp = vec![0u8; 6];
    maxp[0..4].copy_from_slice(&[0, 0, 0x50, 0]);
    maxp[4..6].copy_from_slice(&1u16.to_be_bytes());
    let mut os2 = vec![0u8; 96];
    os2[0..2].copy_from_slice(&os2_version.to_be_bytes());
    os2[8..10].copy_from_slice(&fs_type.to_be_bytes());
    let tables: [(&[u8; 4], Vec<u8>); 4] =
        [(b"OS/2", os2), (b"head", head), (b"hhea", hhea), (b"maxp", maxp)];
    let mut out = Vec::new();
    push_u32(&mut out, 0x0001_0000);
    push_u16(&mut out, tables.len() as u16);
    out.extend([0; 6]);
    let mut offset = 12 + 16 * tables.len();
    for (tag, data) in &tables {
        out.extend(*tag);
        push_u32(&mut out, 0);
        push_u32(&mut out, offset as u32);
        push_u32(&mut out, data.len() as u32);
        offset += data.len();
    }
    for (_, data) in &tables {
        out.extend(data);
    }
    out
}

fn face(weight: u16, upright: bool, data: Vec<u8>) -> Option<FontFace> {
    Some(FontFace { weight, upright, program: Some(FontProgram { data, index: 0 }) })
}

fn family(available: bool, faces: [Option<FontFace>; 4]) -> FontFamily {
    FontFamily { family: "Test".into(), available_at_export: available, faces }
}

fn styles(families: Vec<FontFamily>) -> Vec<EmbeddedFontStyle> {
    collect_embeddable_fonts(&families).iter().map(|p| p.style).collect()
}

#[test]
fn installable_and_editable_fonts_are_embedded() {
    for fs_type in [0, 8] {
        let data = font(4, fs_type);
        let families = vec![family(true, [face(400, true, data.clone()), None, None, None])];
        let programs = collect_embeddable_fonts(&families);
        assert_eq!(programs.len(), 1);
        assert_eq!(programs[0].family, "Test");
        assert_eq!(programs[0].style, EmbeddedFontStyle::Regular);
        assert_eq!(programs[0].data, data);
    }
}

#[test]
fn restricted_fonts_are_not_embedded() {
    // Restricted, preview and print, an invalid combination, and bitmaps only.
    for fs_type in [2, 4, 6, 0x0200] {
        let data = font(4, fs_type);
        assert!(styles(vec![family(true, [face(400, true, data), None, None, None])]).is_empty());
    }
    // Older tables take the most permissive of their flags.
    let data = font(2, 0x000c);
    assert_eq!(styles(vec![family(true, [face(400, true, data), None, None, None])]).len(), 1);
}

#[test]
fn unreadable_programs_are_not_embedded() {
    let mut collection = b"ttcf".to_vec();
    collection.extend(font(4, 0));
    for data in [vec![0; 31], vec![0; 64], collection] {
        assert!(styles(vec![family(true, [face(400, true, data), None, None, None])]).is_empty());
    }
    let absent = Some(FontFace { weight: 400, upright: true, program: None });
    assert!(styles(vec![family(true, [absent, None, None, None])]).is_empty());
}

#[test]
fn a_face_only_fills_its_own_slot() {
    let data = || font(4, 0);
    let faces = [
        face(400, true, data()),
        face(400, true, data()),
        face(400, false, data()),
        face(600, false, data()),
    ];
    assert_eq!(
        styles(vec![family(true, faces)]),
        vec![
            EmbeddedFontStyle::Regular,
            EmbeddedFontStyle::Italic,
            EmbeddedFontStyle::BoldItalic
        ]
    );
    let hidden = family(false, [face(400, true, data()), None, None, None]);
    assert!(styles(vec![hidden]).is_empty());
}

#[test]
fn weights_from_semibold_on_are_bold() {
    assert_eq!(embedded_font_style(599, true), EmbeddedFontStyle::Regular);
    assert_eq!(embedded_font_style(600, true), EmbeddedFontStyle::Bold);
    assert_eq!(embedded_font_style(599, false), EmbeddedFontStyle::Italic);
    assert_eq!(embedded_font_style(900, false), EmbeddedFontStyle::BoldItalic);
}

#[test]
fn rights_decide_on_embedding() {
    assert!(may_embed(Some((true, Some(Permission::Installable)))));
    assert!(may_embed(Some((true, Some(Permission::Editable)))));
    assert!(!may_embed(Some((false, Some(Permission::Installable)))));
    assert!(!may_embed(Some((true, Some(Permission::PreviewAndPrint)))));
    assert!(!may_embed(Some((true, Some(Permission::Restricted)))));
    assert!(!may_embed(Some((true, None))));
    assert!(!may_embed(None));
}

#[test]
fn defaults_are_read_off_the_root_styles() {
    let defaults = text_defaults_from_styles(Some("Libertinus"), 22, None, "de", Some("AT"));
    assert_eq!(defaults.font.as_deref(), Some("Libertinus"));
    assert_eq!(defaults.size_half_pt, 22);
    assert_eq!(defaults.lang.as_deref(), Some("de-AT"));
    let defaults = text_defaults_from_styles(None, 20, Some([1, 2, 3]), "en", None);
    assert_eq!(defaults.font, None);
    assert_eq!(defaults.color, Some([1, 2, 3]));
    assert_eq!(defaults.lang.as_deref(), Some("en"));
}
