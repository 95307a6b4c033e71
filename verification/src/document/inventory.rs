//! Inventories of what the finished document holds: its dynamic fields, the
//! fonts it names and its drawings.

use vstd::prelude::*;

use crate::dom::{
    Block, Drawing, FieldCacheStatus, FieldDisplay, FieldMode, Footnote, HdrFtrPart, HeadingStyle,
    Run, RunProps, TextDefaults,
};
use crate::text::opt_str;
use crate::walk::{Node, Visit, blocks_nodes, nodes, visit_blocks};

verus! {

/// Who owns the value of a recorded field.
#[derive(Debug, Copy, Clone, PartialEq, Eq, Structural)]
pub enum FieldOwner {
    Typst,
    Consumer,
}

/// Whether a recorded field is visible.
#[derive(Debug, Copy, Clone, PartialEq, Eq, Structural)]
pub enum FieldVisibility {
    Visible,
    Hidden,
}

/// The owner that a field mode stands for.
pub open spec fn owner_of(mode: FieldMode) -> FieldOwner {
    match mode {
        FieldMode::Static => FieldOwner::Typst,
        FieldMode::Live => FieldOwner::Consumer,
    }
}

/// The owner that a field mode stands for.
pub fn field_owner(mode: FieldMode) -> (r: FieldOwner)
    ensures
        r == owner_of(mode),
{
    match mode {
        FieldMode::Static => FieldOwner::Typst,
        FieldMode::Live => FieldOwner::Consumer,
    }
}

/// A recorded field.
#[derive(Debug, Clone, PartialEq, Eq)]
pub struct FieldFact {
    pub instr: String,
    pub owner: FieldOwner,
    pub visibility: FieldVisibility,
    pub cache_status: FieldCacheStatus,
}

/// What a recorded field says.
pub struct FieldRecord {
    pub instr: Seq<char>,
    pub owner: FieldOwner,
    pub visibility: FieldVisibility,
    pub cache_status: FieldCacheStatus,
}

/// What recorded fields say.
pub open spec fn field_records(facts: Seq<FieldFact>) -> Seq<FieldRecord> {
    facts.map_values(
        |f: FieldFact|
            FieldRecord {
                instr: f.instr@,
                owner: f.owner,
                visibility: f.visibility,
                cache_status: f.cache_status,
            },
    )
}

/// The field that a stop of the walk records: a table of contents is a visible
/// field with a resolved cache.
pub open spec fn node_field(node: Node) -> Option<FieldRecord> {
    match node {
        Node::Toc(toc) => Some(
            FieldRecord {
                instr: toc.instr@,
                owner: owner_of(toc.mode),
                visibility: FieldVisibility::Visible,
                cache_status: FieldCacheStatus::Resolved,
            },
        ),
        Node::Run(Run::Field(field)) => Some(
            FieldRecord {
                instr: field.instr@,
                owner: owner_of(field.mode),
                visibility: match field.display {
                    FieldDisplay::Visible => FieldVisibility::Visible,
                    FieldDisplay::Hidden => FieldVisibility::Hidden,
                },
                cache_status: field.cache_status,
            },
        ),
        _ => None,
    }
}

/// The fields that stops of the walk record.
pub open spec fn fields_at(s: Seq<Node>) -> Seq<FieldRecord>
    decreases s.len(),
{
    if s.len() == 0 {
        Seq::empty()
    } else {
        let before = fields_at(s.drop_last());
        match node_field(s.last()) {
            Some(f) => before.push(f),
            None => before,
        }
    }
}

/// The stops of the walk over header or footer parts.
pub open spec fn hdrftr_nodes(parts: Seq<HdrFtrPart>) -> Seq<Node>
    decreases parts.len(),
{
    if parts.len() == 0 {
        Seq::empty()
    } else {
        hdrftr_nodes(parts.drop_last()) + blocks_nodes(parts.last().blocks@)
    }
}

/// The stops of the walk over notes.
pub open spec fn note_nodes(notes: Seq<Footnote>) -> Seq<Node>
    decreases notes.len(),
{
    if notes.len() == 0 {
        Seq::empty()
    } else {
        note_nodes(notes.drop_last()) + blocks_nodes(notes.last().blocks@)
    }
}

/// The stops of the walk over a document: the body, the headers, the footers and
/// the notes.
pub open spec fn document_nodes(
    body: Seq<Block>,
    headers: Seq<HdrFtrPart>,
    footers: Seq<HdrFtrPart>,
    footnotes: Seq<Footnote>,
) -> Seq<Node> {
    blocks_nodes(body) + hdrftr_nodes(headers) + hdrftr_nodes(footers) + note_nodes(footnotes)
}

fn visit_hdrftrs<'a>(parts: &'a Vec<HdrFtrPart>, out: &mut Vec<Visit<'a>>)
    ensures
        nodes(final(out)@) == nodes(old(out)@) + hdrftr_nodes(parts@),
{
    let mut i: usize = 0;
    assert(nodes(out@) =~= nodes(old(out)@) + hdrftr_nodes(parts@.take(0)));
    while i < parts.len()
        invariant
            i <= parts.len(),
            nodes(out@) == nodes(old(out)@) + hdrftr_nodes(parts@.take(i as int)),
        decreases parts.len() - i,
    {
        assert(parts@.take(i + 1).drop_last() =~= parts@.take(i as int));
        visit_blocks(&parts[i].blocks, out);
        assert(nodes(out@) =~= nodes(old(out)@) + hdrftr_nodes(parts@.take(i + 1)));
        i = i + 1;
    }
    assert(parts@.take(i as int) =~= parts@);
}

fn visit_notes<'a>(notes: &'a Vec<Footnote>, out: &mut Vec<Visit<'a>>)
    ensures
        nodes(final(out)@) == nodes(old(out)@) + note_nodes(notes@),
{
    let mut i: usize = 0;
    assert(nodes(out@) =~= nodes(old(out)@) + note_nodes(notes@.take(0)));
    while i < notes.len()
        invariant
            i <= notes.len(),
            nodes(out@) == nodes(old(out)@) + note_nodes(notes@.take(i as int)),
        decreases notes.len() - i,
    {
        assert(notes@.take(i + 1).drop_last() =~= notes@.take(i as int));
        visit_blocks(&notes[i].blocks, out);
        assert(nodes(out@) =~= nodes(old(out)@) + note_nodes(notes@.take(i + 1)));
        i = i + 1;
    }
    assert(notes@.take(i as int) =~= notes@);
}

fn visit_document<'a>(
    body: &'a Vec<Block>,
    headers: &'a Vec<HdrFtrPart>,
    footers: &'a Vec<HdrFtrPart>,
    footnotes: &'a Vec<Footnote>,
) -> (out: Vec<Visit<'a>>)
    ensures
        nodes(out@) == document_nodes(body@, headers@, footers@, footnotes@),
{
    let mut out: Vec<Visit<'a>> = Vec::new();
    visit_blocks(body, &mut out);
    assert(nodes(out@) =~= blocks_nodes(body@));
    visit_hdrftrs(headers, &mut out);
    visit_hdrftrs(footers, &mut out);
    visit_notes(footnotes, &mut out);
    out
}

fn visit_field(v: &Visit) -> (r: Option<FieldFact>)
    ensures
        ({
            let node = match *v {
                Visit::Toc(t) => Node::Toc(*t),
                Visit::Run(r) => Node::Run(*r),
            };
            match r {
                Some(f) => node_field(node) == Some(
                    FieldRecord {
                        instr: f.instr@,
                        owner: f.owner,
                        visibility: f.visibility,
                        cache_status: f.cache_status,
                    },
                ),
                None => node_field(node) is None,
            }
        }),
{
    match v {
        Visit::Toc(toc) => Some(
            FieldFact {
                instr: toc.instr.clone(),
                owner: field_owner(toc.mode),
                visibility: FieldVisibility::Visible,
                cache_status: FieldCacheStatus::Resolved,
            },
        ),
        Visit::Run(run) => match run {
            Run::Field(field) => Some(
                FieldFact {
                    instr: field.instr.clone(),
                    owner: field_owner(field.mode),
                    visibility: match field.display {
                        FieldDisplay::Visible => FieldVisibility::Visible,
                        FieldDisplay::Hidden => FieldVisibility::Hidden,
                    },
                    cache_status: field.cache_status,
                },
            ),
            _ => None,
        },
    }
}

/// The dynamic fields of a document in document order, with who owns each,
/// whether it is visible and what its cache holds.
pub fn dynamic_field_inventory(
    body: &Vec<Block>,
    headers: &Vec<HdrFtrPart>,
    footers: &Vec<HdrFtrPart>,
    footnotes: &Vec<Footnote>,
) -> (facts: Vec<FieldFact>)
    ensures
        field_records(facts@) == fields_at(
            document_nodes(body@, headers@, footers@, footnotes@),
        ),
{
    let visits: Vec<Visit> = visit_document(body, headers, footers, footnotes);
    let ghost all = nodes(visits@);
    let mut facts: Vec<FieldFact> = Vec::new();
    let mut i: usize = 0;
    assert(field_records(facts@) =~= fields_at(all.take(0)));
    while i < visits.len()
        invariant
            i <= visits.len(),
            all == nodes(visits@),
            field_records(facts@) == fields_at(all.take(i as int)),
        decreases visits.len() - i,
    {
        assert(all.take(i + 1).drop_last() =~= all.take(i as int));
        assert(all.take(i + 1).last() == all[i as int]);
        if let Some(fact) = visit_field(&visits[i]) {
            let ghost prior = facts@;
            facts.push(fact);
            assert(field_records(facts@) =~= field_records(prior).push(
                node_field(all[i as int]).unwrap(),
            ));
        }
        i = i + 1;
    }
    assert(all.take(i as int) =~= all);
    facts
}

/// The font family that run properties name.
pub open spec fn props_font(p: RunProps) -> Seq<Seq<char>> {
    match opt_str(p.font) {
        Some(f) => seq![f],
        None => Seq::empty(),
    }
}

/// The font family that a stop of the walk names.
pub open spec fn node_font(node: Node) -> Seq<Seq<char>> {
    match node {
        Node::Run(Run::Text { props, .. }) => props_font(props),
        Node::Run(Run::FootnoteRef { props, .. }) => props_font(props),
        Node::Run(Run::CommentReference { props, .. }) => props_font(props),
        _ => Seq::empty(),
    }
}

/// The font families that stops of the walk name.
pub open spec fn fonts_at(s: Seq<Node>) -> Seq<Seq<char>>
    decreases s.len(),
{
    if s.len() == 0 {
        Seq::empty()
    } else {
        fonts_at(s.drop_last()) + node_font(s.last())
    }
}

/// The font families that heading styles name.
pub open spec fn style_fonts(s: Seq<HeadingStyle>) -> Seq<Seq<char>>
    decreases s.len(),
{
    if s.len() == 0 {
        Seq::empty()
    } else {
        style_fonts(s.drop_last()) + props_font(s.last().rpr)
    }
}

/// The characters of strings.
pub open spec fn names(s: Seq<String>) -> Seq<Seq<char>> {
    s.map_values(|n: String| n@)
}

fn push_font_of(props: &RunProps, out: &mut Vec<String>)
    ensures
        names(final(out)@) == names(old(out)@) + props_font(*props),
{
    let ghost before = names(out@);
    assert(before =~= before + Seq::<Seq<char>>::empty());
    if let Some(font) = &props.font {
        out.push(font.clone());
        assert(names(out@) =~= before + seq![font@]);
    }
}

fn push_style_fonts(styles: &Vec<HeadingStyle>, out: &mut Vec<String>)
    ensures
        names(final(out)@) == names(old(out)@) + style_fonts(styles@),
{
    let mut i: usize = 0;
    assert(names(out@) =~= names(old(out)@) + style_fonts(styles@.take(0)));
    while i < styles.len()
        invariant
            i <= styles.len(),
            names(out@) == names(old(out)@) + style_fonts(styles@.take(i as int)),
        decreases styles.len() - i,
    {
        assert(styles@.take(i + 1).drop_last() =~= styles@.take(i as int));
        push_font_of(&styles[i].rpr, out);
        assert(names(out@) =~= names(old(out)@) + style_fonts(styles@.take(i + 1)));
        i = i + 1;
    }
    assert(styles@.take(i as int) =~= styles@);
}

fn push_visit_fonts(visits: &Vec<Visit>, out: &mut Vec<String>)
    ensures
        names(final(out)@) == names(old(out)@) + fonts_at(nodes(visits@)),
{
    let ghost all = nodes(visits@);
    let mut i: usize = 0;
    assert(names(out@) =~= names(old(out)@) + fonts_at(all.take(0)));
    while i < visits.len()
        invariant
            i <= visits.len(),
            all == nodes(visits@),
            names(out@) == names(old(out)@) + fonts_at(all.take(i as int)),
        decreases visits.len() - i,
    {
        assert(all.take(i + 1).drop_last() =~= all.take(i as int));
        assert(all.take(i + 1).last() == all[i as int]);
        let ghost before = names(out@);
        assert(before =~= before + Seq::<Seq<char>>::empty());
        if let Visit::Run(run) = &visits[i] {
            match run {
                Run::Text { props, .. } => {
                    push_font_of(props, out);
                }
                Run::FootnoteRef { props, .. } => {
                    push_font_of(props, out);
                }
                Run::CommentReference { props, .. } => {
                    push_font_of(props, out);
                }
                _ => {}
            }
        }
        assert(names(out@) =~= before + node_font(all[i as int]));
        assert(names(out@) =~= names(old(out)@) + fonts_at(all.take(i + 1)));
        i = i + 1;
    }
    assert(all.take(i as int) =~= all);
}

/// The font families that a document names, in the order in which they are met:
/// the default font, those of the heading styles, the math font when there is
/// math, and those of the runs.
pub open spec fn font_names(
    defaults: TextDefaults,
    styles: Seq<HeadingStyle>,
    uses_math: bool,
    all: Seq<Node>,
) -> Seq<Seq<char>> {
    (match opt_str(defaults.font) {
        Some(f) => seq![f],
        None => Seq::empty(),
    }) + style_fonts(styles) + (if uses_math {
        seq!["Cambria Math"@]
    } else {
        Seq::empty()
    }) + fonts_at(all)
}

/// The font families that a document names, in the order in which they are met.
pub fn font_inventory(
    defaults: &TextDefaults,
    heading_styles: &Vec<HeadingStyle>,
    uses_math: bool,
    body: &Vec<Block>,
    headers: &Vec<HdrFtrPart>,
    footers: &Vec<HdrFtrPart>,
    footnotes: &Vec<Footnote>,
) -> (out: Vec<String>)
    ensures
        names(out@) == font_names(
            *defaults,
            heading_styles@,
            uses_math,
            document_nodes(body@, headers@, footers@, footnotes@),
        ),
{
    let mut out: Vec<String> = Vec::new();
    if let Some(font) = &defaults.font {
        out.push(font.clone());
        assert(names(out@) =~= seq![font@]);
    }
    let ghost first: Seq<Seq<char>> = match opt_str(defaults.font) {
        Some(f) => seq![f],
        None => Seq::empty(),
    };
    assert(names(out@) =~= first);
    push_style_fonts(heading_styles, &mut out);
    let ghost second = names(out@);
    let ghost third: Seq<Seq<char>> = if uses_math {
        seq!["Cambria Math"@]
    } else {
        Seq::empty()
    };
    if uses_math {
        out.push("Cambria Math".to_owned());
    }
    assert(names(out@) =~= second + third);
    let visits: Vec<Visit> = visit_document(body, headers, footers, footnotes);
    push_visit_fonts(&visits, &mut out);
    out
}

/// A recorded drawing.
#[derive(Debug, Clone, PartialEq, Eq)]
pub struct DrawingFact {
    pub docpr_id: u32,
    pub name: String,
    pub alt: Option<String>,
    pub decorative: bool,
    pub native_text: bool,
}

/// What a recorded drawing says.
pub struct DrawingRecord {
    pub docpr_id: u32,
    pub name: Seq<char>,
    pub alt: Option<Seq<char>>,
    pub decorative: bool,
    pub native_text: bool,
}

/// What recorded drawings say.
pub open spec fn drawing_records(facts: Seq<DrawingFact>) -> Seq<DrawingRecord> {
    facts.map_values(
        |f: DrawingFact|
            DrawingRecord {
                docpr_id: f.docpr_id,
                name: f.name@,
                alt: opt_str(f.alt),
                decorative: f.decorative,
                native_text: f.native_text,
            },
    )
}

/// The record of a drawing.
pub open spec fn drawing_record(d: Drawing) -> DrawingRecord {
    DrawingRecord {
        docpr_id: d.docpr_id,
        name: d.name@,
        alt: opt_str(d.alt),
        decorative: d.decorative,
        native_text: d.native_text(),
    }
}

/// The drawings among stops of the walk.
pub open spec fn drawings_at(s: Seq<Node>) -> Seq<DrawingRecord>
    decreases s.len(),
{
    if s.len() == 0 {
        Seq::empty()
    } else {
        let before = drawings_at(s.drop_last());
        match s.last() {
            Node::Run(Run::Drawing(d)) => before.push(drawing_record(d)),
            _ => before,
        }
    }
}

/// The drawings of a document in document order.
pub fn drawing_inventory(
    body: &Vec<Block>,
    headers: &Vec<HdrFtrPart>,
    footers: &Vec<HdrFtrPart>,
    footnotes: &Vec<Footnote>,
) -> (facts: Vec<DrawingFact>)
    ensures
        drawing_records(facts@) == drawings_at(
            document_nodes(body@, headers@, footers@, footnotes@),
        ),
{
    let visits: Vec<Visit> = visit_document(body, headers, footers, footnotes);
    let ghost all = nodes(visits@);
    let mut facts: Vec<DrawingFact> = Vec::new();
    let mut i: usize = 0;
    assert(drawing_records(facts@) =~= drawings_at(all.take(0)));
    while i < visits.len()
        invariant
            i <= visits.len(),
            all == nodes(visits@),
            drawing_records(facts@) == drawings_at(all.take(i as int)),
        decreases visits.len() - i,
    {
        assert(all.take(i + 1).drop_last() =~= all.take(i as int));
        assert(all.take(i + 1).last() == all[i as int]);
        if let Visit::Run(run) = &visits[i] {
            if let Run::Drawing(d) = run {
                let ghost prior = facts@;
                let alt: Option<String> = match &d.alt {
                    Some(t) => Some(t.clone()),
                    None => None,
                };
                facts.push(
                    DrawingFact {
                        docpr_id: d.docpr_id,
                        name: d.name.clone(),
                        alt,
                        decorative: d.decorative,
                        native_text: d.has_native_text(),
                    },
                );
                assert(drawing_records(facts@) =~= drawing_records(prior).push(drawing_record(*d)));
            }
        }
        i = i + 1;
    }
    assert(all.take(i as int) =~= all);
    facts
}

/// The number of characters of text among stops of the walk.
pub open spec fn text_chars_at(s: Seq<Node>) -> nat
    decreases s.len(),
{
    if s.len() == 0 {
        0
    } else {
        text_chars_at(s.drop_last()) + (match s.last() {
            Node::Run(Run::Text { text, .. }) => text@.len(),
            _ => 0,
        })
    }
}

/// The number of characters of text in blocks, at any depth.
pub fn blocks_text_chars(blocks: &Vec<Block>) -> (r: u128)
    ensures
        r == text_chars_at(blocks_nodes(blocks@)),
{
    let mut visits: Vec<Visit> = Vec::new();
    visit_blocks(blocks, &mut visits);
    assert(nodes(visits@) =~= blocks_nodes(blocks@));
    let ghost all = nodes(visits@);
    let mut total: u128 = 0;
    let mut i: usize = 0;
    while i < visits.len()
        invariant
            i <= visits.len(),
            all == nodes(visits@),
            total == text_chars_at(all.take(i as int)),
            total <= i * u64::MAX,
        decreases visits.len() - i,
    {
        assert(all.take(i + 1).drop_last() =~= all.take(i as int));
        assert(all.take(i + 1).last() == all[i as int]);
        assert(i * u64::MAX + u64::MAX == (i + 1) * u64::MAX) by (nonlinear_arith);
        assert((i + 1) * u64::MAX <= u128::MAX) by (nonlinear_arith)
            requires
                i < u64::MAX,
        ;
        if let Visit::Run(run) = &visits[i] {
            if let Run::Text { text, .. } = run {
                let n: usize = text.as_str().unicode_len();
                total = total + n as u128;
            }
        }
        i = i + 1;
    }
    assert(all.take(i as int) =~= all);
    total
}

} // verus!
