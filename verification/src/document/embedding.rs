//! Chooses the font programs that are embedded in the document.

use vstd::prelude::*;

use crate::dom::{EmbeddedFontProgram, EmbeddedFontStyle, TextDefaults};
use crate::text::concat3;

verus! {

/// The embedding permission that a font's OS/2 table states.
#[derive(Debug, Copy, Clone, PartialEq, Eq, Structural)]
pub enum Permission {
    Installable,
    Restricted,
    PreviewAndPrint,
    Editable,
}

/// What an OS/2 table says about embedding: whether outlines may be embedded,
/// and the permission, where it is well-formed.
pub type Rights = (bool, Option<Permission>);

/// Whether font data is a font collection rather than a single program: it
/// starts with the tag `ttcf` and goes on to the number of its fonts.
pub open spec fn is_collection(data: Seq<u8>) -> bool {
    data.len() >= 12 && data[0] == 0x74 && data[1] == 0x74 && data[2] == 0x63 && data[3] == 0x66
}

/// `ttf_parser::fonts_in_collection`: for the data of a font collection the
/// number of its fonts, which follows the tag and a version number in big-endian
/// order, and nothing for other data.
pub assume_specification[ ttf_parser::fonts_in_collection ](data: &[u8]) -> (r: Option<u32>)
    ensures
        r is Some <==> is_collection(data@),
        r matches Some(n) ==> n == data@[8] * 0x100_0000 + data@[9] * 0x1_0000 + data@[10] * 0x100
            + data@[11],
;

/// What the OS/2 table of the face at `index` in font data says about embedding,
/// or nothing for data without a readable face or a face without that table.
pub uninterp spec fn os2_rights(data: Seq<u8>, index: u32) -> Option<(bool, Option<Permission>)>;

/// `ttf_parser::Face::parse`, and what the OS/2 table of the face it reads
/// answers to `is_outline_embedding_allowed` and `permissions`. The contract only
/// claims that the answer is a function of the data and the index.
#[verifier::external_body]
fn face_rights(data: &[u8], index: u32) -> (r: Option<(bool, Option<Permission>)>)
    ensures
        r == os2_rights(data@, index),
{
    let face = ttf_parser::Face::parse(data, index).ok()?;
    let os2 = face.tables().os2?;
    let permission = os2.permissions().map(|p| match p {
        ttf_parser::Permissions::Installable => Permission::Installable,
        ttf_parser::Permissions::Restricted => Permission::Restricted,
        ttf_parser::Permissions::PreviewAndPrint => Permission::PreviewAndPrint,
        ttf_parser::Permissions::Editable => Permission::Editable,
    });
    Some((os2.is_outline_embedding_allowed(), permission))
}

/// Whether an editable document may embed a font with these rights.
pub open spec fn allowed(rights: Option<Rights>) -> bool {
    match rights {
        Some((outlines, permission)) => outlines && (permission == Some(Permission::Installable)
            || permission == Some(Permission::Editable)),
        None => false,
    }
}

/// Whether an editable document may embed a font with these rights. A font that
/// may only be previewed and printed may not.
pub fn may_embed(rights: Option<Rights>) -> (r: bool)
    ensures
        r == allowed(rights),
{
    match rights {
        Some((outlines, permission)) => outlines && match permission {
            Some(Permission::Installable) | Some(Permission::Editable) => true,
            _ => false,
        },
        None => false,
    }
}

/// A font program: the data and the index of the face in it.
pub struct FontProgram {
    pub data: Vec<u8>,
    pub index: u32,
}

/// The face that was selected for a style of a family.
pub struct FontFace {
    /// Between 100 and 900.
    pub weight: u16,
    /// Whether the face is neither italic nor oblique.
    pub upright: bool,
    /// The program of the face, when it could be loaded.
    pub program: Option<FontProgram>,
}

/// A font family that the document refers to.
pub struct FontFamily {
    pub family: String,
    pub available_at_export: bool,
    /// The faces selected for the regular, bold, italic and bold italic style.
    pub faces: [Option<FontFace>; 4],
}

/// The style slot of a face: semibold and heavier faces are bold.
pub open spec fn slot_of(weight: u16, upright: bool) -> EmbeddedFontStyle {
    if weight >= 600 {
        if upright {
            EmbeddedFontStyle::Bold
        } else {
            EmbeddedFontStyle::BoldItalic
        }
    } else if upright {
        EmbeddedFontStyle::Regular
    } else {
        EmbeddedFontStyle::Italic
    }
}

/// The style slot of a face.
pub fn embedded_font_style(weight: u16, upright: bool) -> (r: EmbeddedFontStyle)
    ensures
        r == slot_of(weight, upright),
{
    match (weight >= 600, !upright) {
        (false, false) => EmbeddedFontStyle::Regular,
        (true, false) => EmbeddedFontStyle::Bold,
        (false, true) => EmbeddedFontStyle::Italic,
        (true, true) => EmbeddedFontStyle::BoldItalic,
    }
}

/// The style slots in order.
pub open spec fn slot(i: int) -> EmbeddedFontStyle {
    if i == 0 {
        EmbeddedFontStyle::Regular
    } else if i == 1 {
        EmbeddedFontStyle::Bold
    } else if i == 2 {
        EmbeddedFontStyle::Italic
    } else {
        EmbeddedFontStyle::BoldItalic
    }
}

/// Whether a selected face fills its slot: it has the slot's own style, so that
/// no fallback face poses as one, and its program is a single font that may be
/// embedded.
pub open spec fn fills(face: Option<FontFace>, style: EmbeddedFontStyle) -> bool {
    match face {
        Some(f) => slot_of(f.weight, f.upright) == style && match f.program {
            Some(p) => p.data@.len() >= 32 && !is_collection(p.data@) && allowed(
                os2_rights(p.data@, p.index),
            ),
            None => false,
        },
        None => false,
    }
}

fn face_fills(face: &Option<FontFace>, style: EmbeddedFontStyle) -> (r: bool)
    ensures
        r == fills(*face, style),
{
    match face {
        Some(f) => {
            if embedded_font_style(f.weight, f.upright) != style {
                return false;
            }
            match &f.program {
                Some(p) => {
                    if p.data.len() < 32 {
                        return false;
                    }
                    if ttf_parser::fonts_in_collection(p.data.as_slice()).is_some() {
                        return false;
                    }
                    may_embed(face_rights(p.data.as_slice(), p.index))
                }
                None => false,
            }
        }
        None => false,
    }
}

/// An embedded program: its family, its style and its data.
pub struct ProgramLook {
    pub family: Seq<char>,
    pub style: EmbeddedFontStyle,
    pub data: Seq<u8>,
}

impl View for EmbeddedFontProgram {
    type V = ProgramLook;

    open spec fn view(&self) -> ProgramLook {
        ProgramLook { family: self.family@, style: self.style, data: self.data@ }
    }
}

/// Embedded programs, one by one.
pub open spec fn programs(s: Seq<EmbeddedFontProgram>) -> Seq<ProgramLook> {
    s.map_values(|p: EmbeddedFontProgram| p@)
}

/// The programs of the first `n` style slots of a family.
pub open spec fn family_programs(f: FontFamily, n: int) -> Seq<ProgramLook>
    decreases n,
{
    if n <= 0 {
        Seq::empty()
    } else {
        let before = family_programs(f, n - 1);
        if fills(f.faces[n - 1], slot(n - 1)) {
            before.push(
                ProgramLook {
                    family: f.family@,
                    style: slot(n - 1),
                    data: f.faces[n - 1].unwrap().program.unwrap().data@,
                },
            )
        } else {
            before
        }
    }
}

/// The programs of families, in order.
pub open spec fn embeddable(families: Seq<FontFamily>) -> Seq<ProgramLook>
    decreases families.len(),
{
    if families.len() == 0 {
        Seq::empty()
    } else {
        let f = families.last();
        embeddable(families.drop_last()) + (if f.available_at_export {
            family_programs(f, 4)
        } else {
            Seq::empty()
        })
    }
}

fn copy_bytes(data: &Vec<u8>) -> (r: Vec<u8>)
    ensures
        r@ == data@,
{
    let mut r: Vec<u8> = Vec::new();
    let mut i: usize = 0;
    while i < data.len()
        invariant
            i <= data.len(),
            r@ == data@.take(i as int),
        decreases data.len() - i,
    {
        r.push(data[i]);
        assert(data@.take(i + 1) =~= data@.take(i as int).push(data@[i as int]));
        i = i + 1;
    }
    assert(data@.take(i as int) =~= data@);
    r
}

fn push_family(f: &FontFamily, out: &mut Vec<EmbeddedFontProgram>)
    ensures
        programs(final(out)@) == programs(old(out)@) + family_programs(*f, 4),
{
    let slots: [EmbeddedFontStyle; 4] = [
        EmbeddedFontStyle::Regular,
        EmbeddedFontStyle::Bold,
        EmbeddedFontStyle::Italic,
        EmbeddedFontStyle::BoldItalic,
    ];
    let mut i: usize = 0;
    while i < 4
        invariant
            i <= 4,
            forall|k: int| 0 <= k < 4 ==> #[trigger] slots[k] == slot(k),
            programs(out@) == programs(old(out)@) + family_programs(*f, i as int),
        decreases 4 - i,
    {
        let ghost before = programs(out@);
        if face_fills(&f.faces[i], slots[i]) {
            if let Some(face) = &f.faces[i] {
                if let Some(program) = &face.program {
                    out.push(
                        EmbeddedFontProgram {
                            family: f.family.clone(),
                            style: slots[i],
                            data: copy_bytes(&program.data),
                        },
                    );
                    assert(programs(out@) =~= before.push(
                        ProgramLook { family: f.family@, style: slot(i as int), data: program.data@ },
                    ));
                }
            }
        }
        assert(programs(out@) =~= programs(old(out)@) + family_programs(*f, i + 1));
        i = i + 1;
    }
}

/// Collects the font programs that go into the document: those of the available
/// families whose faces fill their own style slot and may be embedded.
pub fn collect_embeddable_fonts(families: &Vec<FontFamily>) -> (r: Vec<EmbeddedFontProgram>)
    ensures
        programs(r@) == embeddable(families@),
{
    let mut r: Vec<EmbeddedFontProgram> = Vec::new();
    let mut i: usize = 0;
    assert(programs(r@) =~= embeddable(families@.take(0)));
    while i < families.len()
        invariant
            i <= families.len(),
            programs(r@) == embeddable(families@.take(i as int)),
        decreases families.len() - i,
    {
        assert(families@.take(i + 1).drop_last() =~= families@.take(i as int));
        if families[i].available_at_export {
            push_family(&families[i], &mut r);
        } else {
            assert(programs(r@) =~= programs(r@) + Seq::<ProgramLook>::empty());
        }
        i = i + 1;
    }
    assert(families@.take(i as int) =~= families@);
    r
}

/// The language tag of a language and an optional region.
pub open spec fn lang_tag(code: Seq<char>, region: Option<Seq<char>>) -> Seq<char> {
    match region {
        Some(region) => code + "-"@ + region,
        None => code,
    }
}

/// The text defaults that the root styles state: the first font family, the size,
/// a solid color and the language tag.
pub fn text_defaults_from_styles(
    font: Option<&str>,
    size_half_pt: u32,
    color: Option<[u8; 3]>,
    lang: &str,
    region: Option<&str>,
) -> (r: TextDefaults)
    ensures
        match font {
            Some(f) => r.font matches Some(own) && own@ == f@,
            None => r.font is None,
        },
        r.size_half_pt == size_half_pt,
        r.color == color,
        r.lang matches Some(own) && own@ == lang_tag(
            lang@,
            match region {
                Some(region) => Some(region@),
                None => None,
            },
        ),
{
    let tag: String = match region {
        Some(region) => concat3(lang, "-", region),
        None => lang.to_owned(),
    };
    let font: Option<String> = match font {
        Some(f) => Some(f.to_owned()),
        None => None,
    };
    TextDefaults { font, size_half_pt, color, lang: Some(tag) }
}

/// Whether a program comes from a face that fills its slot in an available
/// family.
pub open spec fn is_permitted(families: Seq<FontFamily>, p: ProgramLook) -> bool {
    exists|f: int, s: int|
        {
            &&& 0 <= f < families.len() && 0 <= s < 4
            &&& (#[trigger] families[f]).available_at_export
            &&& fills(families[f].faces[s], #[trigger] slot(s))
            &&& p.family == families[f].family@
            &&& p.style == slot(s)
            &&& p.data == families[f].faces[s].unwrap().program.unwrap().data@
        }
}

proof fn lemma_family_permitted(families: Seq<FontFamily>, f: int, n: int, i: int)
    requires
        0 <= f < families.len(),
        families[f].available_at_export,
        0 <= n <= 4,
        0 <= i < family_programs(families[f], n).len(),
    ensures
        is_permitted(families, family_programs(families[f], n)[i]),
    decreases n,
{
    let before = family_programs(families[f], n - 1);
    if i < before.len() {
        lemma_family_permitted(families, f, n - 1, i);
    } else {
        assert(fills(families[f].faces[n - 1], slot(n - 1)));
    }
}

/// Only fonts that may be embedded in an editable document are: every embedded
/// program belongs to an available family, has the style of its slot, is a single
/// font, and its own table allows outlines to be embedded for installing or
/// editing.
pub proof fn restricted_fonts_are_never_embedded(families: Seq<FontFamily>, i: int)
    requires
        0 <= i < embeddable(families).len(),
    ensures
        is_permitted(families, embeddable(families)[i]),
    decreases families.len(),
{
    let before = families.drop_last();
    let n = families.len() - 1;
    if i < embeddable(before).len() {
        restricted_fonts_are_never_embedded(before, i);
        let p = embeddable(before)[i];
        let (f, s) = choose|f: int, s: int|
            {
                &&& 0 <= f < before.len() && 0 <= s < 4
                &&& (#[trigger] before[f]).available_at_export
                &&& fills(before[f].faces[s], #[trigger] slot(s))
                &&& p.family == before[f].family@
                &&& p.style == slot(s)
                &&& p.data == before[f].faces[s].unwrap().program.unwrap().data@
            };
        assert(families[f] == before[f]);
        assert(slot(s) == p.style);
    } else {
        lemma_family_permitted(families, n, 4, i - embeddable(before).len());
    }
}

} // verus!
