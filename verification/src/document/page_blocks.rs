//! What is drawn on every page, and the lowering scope of headers and footers.

use vstd::prelude::*;

use crate::ctx::state::DocxCtx;
use crate::document::furniture::FurnitureSlot;
use crate::document::geometry::{HAlign, SectGeom};
use crate::dom::{
    Anchor, AnchorPos, AnchorWrap, Block, Drawing, Jc, Para, ParaChild, ParaProps, PicClip, Run,
    ShapeFill, ShapeGeom, ShapeSpec,
};
use crate::length::{EMU_PER_TWIP, TWIP};
use crate::props::{FlowLook, ParaLook, flow_look};
use crate::text::{
    blank, concat2, dec, dec_u64, is_blank, is_white, opt_str, push_char, str_eq, to_chars, white,
};

verus! {

// -- The geometry of a section -----------------------------------------------

/// A number of twips as a length.
pub open spec fn from_twips(n: int) -> i64 {
    (n * TWIP) as i64
}

/// The width of one column in twips, at least one.
pub open spec fn column_width(content: int, columns: u32, gutter: i32) -> int {
    let n = if columns < 1 {
        1
    } else {
        columns as int
    };
    let gap = if gutter < 0 {
        0
    } else {
        gutter as int
    };
    let rest = content - gap * (n - 1);
    if rest < n {
        1
    } else {
        rest / n
    }
}

/// The state with a page setup installed. Degenerate extents are left out.
pub open spec fn with_geometry(ctx: DocxCtx, g: SectGeom) -> DocxCtx {
    let width = g.page_w - g.margin_left - g.margin_right;
    let height = g.page_h - g.margin_top - g.margin_bottom;
    DocxCtx {
        page_content_width: if width > 0 {
            from_twips(width)
        } else {
            ctx.page_content_width
        },
        available_width: if width > 0 {
            from_twips(column_width(width, g.columns, g.col_space))
        } else {
            ctx.available_width
        },
        available_height: if height > 0 {
            from_twips(height)
        } else {
            ctx.available_height
        },
        shape_height_base: if height > 0 {
            Some(from_twips(height))
        } else {
            ctx.shape_height_base
        },
        raster_height: if g.page_h > 0 {
            from_twips(g.page_h as int)
        } else {
            ctx.raster_height
        },
        ..ctx
    }
}

fn width_of_column(content: i64, columns: u32, gutter: i32) -> (r: i64)
    requires
        0 < content <= 0x2_0000_0000,
    ensures
        r == column_width(content as int, columns, gutter),
        1 <= r <= 0x2_0000_0000,
{
    let n: i128 = if columns < 1 {
        1
    } else {
        columns as i128
    };
    let gap: i128 = if gutter < 0 {
        0
    } else {
        gutter as i128
    };
    assert(0 <= gap * (n - 1) <= 0x8000_0000 * 0x1_0000_0000) by (nonlinear_arith)
        requires
            0 <= gap <= 0x8000_0000,
            1 <= n <= 0x1_0000_0000,
    ;
    let rest: i128 = content as i128 - gap * (n - 1);
    if rest < n {
        1
    } else {
        let q: i128 = rest / n;
        assert(1 <= q <= rest) by (nonlinear_arith)
            requires
                n <= rest,
                1 <= n,
                q == rest / n,
        ;
        q as i64
    }
}

/// Installs the page setup of a section as the region that content is lowered
/// into.
pub fn set_ctx_geometry(ctx: &mut DocxCtx, geom: &SectGeom)
    ensures
        *final(ctx) == with_geometry(*old(ctx), *geom),
{
    let width: i64 = geom.page_w as i64 - geom.margin_left as i64 - geom.margin_right as i64;
    if width > 0 {
        ctx.page_content_width = width * TWIP;
        ctx.available_width = width_of_column(width, geom.columns, geom.col_space) * TWIP;
    }
    let height: i64 = geom.page_h as i64 - geom.margin_top as i64 - geom.margin_bottom as i64;
    if height > 0 {
        ctx.available_height = height * TWIP;
        ctx.shape_height_base = Some(height * TWIP);
    }
    if geom.page_h > 0 {
        ctx.raster_height = geom.page_h as i64 * TWIP;
    }
}

// -- The scope of furniture --------------------------------------------------

/// What the lowering of furniture replaced.
#[derive(Debug, Copy, Clone, PartialEq, Eq, Structural)]
pub struct FurnitureScope {
    pub raster_height: i64,
    pub line_numbering: bool,
}

/// The height that furniture is rasterized in: its margin, at least six points.
pub open spec fn furniture_height(slot: FurnitureSlot, g: SectGeom) -> i64 {
    let margin = match slot {
        FurnitureSlot::Header => from_twips(g.margin_top as int),
        FurnitureSlot::Footer => from_twips(g.margin_bottom as int),
    };
    if margin < 6_000_000 {
        6_000_000
    } else {
        margin
    }
}

/// Starts the lowering of furniture: no line numbers, and an alignment of the
/// page counter yet to be found.
pub fn begin_furniture(ctx: &mut DocxCtx, slot: FurnitureSlot, geom: &SectGeom) -> (saved:
    FurnitureScope)
    ensures
        saved == (FurnitureScope {
            raster_height: old(ctx).raster_height,
            line_numbering: old(ctx).line_numbering_active,
        }),
        *final(ctx) == (DocxCtx {
            raster_height: furniture_height(slot, *geom),
            line_numbering_active: false,
            page_counter_paragraph_alignment: None,
            ..*old(ctx)
        }),
{
    let saved: FurnitureScope = FurnitureScope {
        raster_height: ctx.raster_height,
        line_numbering: ctx.line_numbering_active,
    };
    let margin: i64 = match slot {
        FurnitureSlot::Header => geom.margin_top as i64 * TWIP,
        FurnitureSlot::Footer => geom.margin_bottom as i64 * TWIP,
    };
    ctx.raster_height = if margin < 6_000_000 {
        6_000_000
    } else {
        margin
    };
    ctx.line_numbering_active = false;
    ctx.page_counter_paragraph_alignment = None;
    saved
}

/// Ends the lowering of furniture; returns the alignment of the paragraph that
/// owns the page counter.
pub fn end_furniture(ctx: &mut DocxCtx, saved: FurnitureScope) -> (jc: Option<Jc>)
    ensures
        jc == old(ctx).page_counter_paragraph_alignment,
        *final(ctx) == (DocxCtx {
            raster_height: saved.raster_height,
            line_numbering_active: saved.line_numbering,
            page_counter_paragraph_alignment: None,
            ..*old(ctx)
        }),
{
    let jc: Option<Jc> = ctx.page_counter_paragraph_alignment.take();
    ctx.raster_height = saved.raster_height;
    ctx.line_numbering_active = saved.line_numbering;
    jc
}

/// The justification of an alignment that wraps furniture.
pub open spec fn furniture_jc(align: Option<HAlign>) -> Option<Jc> {
    match align {
        Some(HAlign::Start) | Some(HAlign::Left) => Some(Jc::Start),
        Some(HAlign::Center) => Some(Jc::Center),
        Some(HAlign::Right) | Some(HAlign::End) => Some(Jc::End),
        None => None,
    }
}

/// The justification of an alignment that wraps furniture.
pub fn furniture_horizontal_alignment(align: Option<HAlign>) -> (r: Option<Jc>)
    ensures
        r == (match align {
            Some(HAlign::Start) | Some(HAlign::Left) => Some(Jc::Start),
            Some(HAlign::Center) => Some(Jc::Center),
            Some(HAlign::Right) | Some(HAlign::End) => Some(Jc::End),
            None => None,
        }),
        r == furniture_jc(align),
{
    match align {
        Some(HAlign::Start) | Some(HAlign::Left) => Some(Jc::Start),
        Some(HAlign::Center) => Some(Jc::Center),
        Some(HAlign::Right) | Some(HAlign::End) => Some(Jc::End),
        None => None,
    }
}

/// The index of the first character from `i` on that is no white space, or the
/// length.
pub open spec fn word_start(s: Seq<char>, i: int) -> int
    decreases s.len() - i,
{
    if 0 <= i < s.len() && is_white(s[i]) {
        word_start(s, i + 1)
    } else {
        i
    }
}

/// The index of the first white space from `i` on, or the length.
pub open spec fn word_end(s: Seq<char>, i: int) -> int
    decreases s.len() - i,
{
    if 0 <= i < s.len() && !is_white(s[i]) {
        word_end(s, i + 1)
    } else {
        i
    }
}

/// The first word of a text.
pub open spec fn first_word(s: Seq<char>) -> Seq<char> {
    s.subrange(word_start(s, 0), word_end(s, word_start(s, 0)))
}

fn first_word_is(s: &str, word: &str) -> (r: bool)
    ensures
        r == (first_word(s@) == word@),
{
    let chars: Vec<char> = to_chars(s);
    let n: usize = chars.len();
    let mut from: usize = 0;
    while from < n && white(chars[from])
        invariant
            from <= n,
            n == chars@.len(),
            chars@ == s@,
            word_start(s@, 0) == word_start(s@, from as int),
        decreases n - from,
    {
        from = from + 1;
    }
    let mut to: usize = from;
    let mut taken: String = String::new();
    assert(taken@ =~= s@.subrange(from as int, from as int));
    while to < n && !white(chars[to])
        invariant
            from <= to <= n,
            n == chars@.len(),
            chars@ == s@,
            word_end(s@, from as int) == word_end(s@, to as int),
            taken@ == s@.subrange(from as int, to as int),
        decreases n - to,
    {
        push_char(&mut taken, chars[to]);
        to = to + 1;
        assert(taken@ =~= s@.subrange(from as int, to as int));
    }
    str_eq(taken.as_str(), word)
}

/// Whether a child is a page-number field.
pub open spec fn is_page_field(child: ParaChild) -> bool {
    match child {
        ParaChild::Run(Run::Field(field)) => first_word(field.instr@) == "PAGE"@,
        _ => false,
    }
}

/// Whether a paragraph holds a page-number field.
pub open spec fn has_page_field(content: Seq<ParaChild>) -> bool {
    exists|i: int| 0 <= i < content.len() && is_page_field(#[trigger] content[i])
}

/// Whether a paragraph holds a page-number field.
pub fn para_has_page_field(para: &Para) -> (r: bool)
    ensures
        r == has_page_field(para.content@),
{
    let mut i: usize = 0;
    while i < para.content.len()
        invariant
            i <= para.content@.len(),
            forall|k: int| 0 <= k < i ==> !is_page_field(#[trigger] para.content@[k]),
        decreases para.content@.len() - i,
    {
        let found: bool = match &para.content[i] {
            ParaChild::Run(Run::Field(field)) => first_word_is(field.instr.as_str(), "PAGE"),
            _ => false,
        };
        if found {
            assert(is_page_field(para.content@[i as int]));
            return true;
        }
        i = i + 1;
    }
    false
}

/// A block of furniture with its alignment: an alignment around all of it goes to
/// every paragraph without one, else that of the page counter to the paragraph
/// that owns it.
pub open spec fn aligned(block: FlowLook, whole: Option<Jc>, counter: Option<Jc>) -> FlowLook {
    match block {
        FlowLook::Para { props, content } => {
            let jc = if props.jc is Some {
                props.jc
            } else if whole is Some {
                whole
            } else if counter is Some && has_page_field(content) {
                counter
            } else {
                None
            };
            FlowLook::Para { props: ParaLook { jc, ..props }, content }
        },
        FlowLook::Other(_) => block,
    }
}

/// Aligns the blocks of furniture.
pub fn align_furniture(blocks: &mut Vec<Block>, whole: Option<Jc>, counter: Option<Jc>)
    ensures
        final(blocks)@.len() == old(blocks)@.len(),
        forall|i: int|
            0 <= i < final(blocks)@.len() ==> flow_look(#[trigger] final(blocks)@[i]) == aligned(
                flow_look(old(blocks)@[i]),
                whole,
                counter,
            ),
{
    let n: usize = blocks.len();
    let mut i: usize = 0;
    while i < n
        invariant
            i <= n,
            n == blocks@.len(),
            n == old(blocks)@.len(),
            forall|k: int|
                0 <= k < i ==> flow_look(#[trigger] blocks@[k]) == aligned(
                    flow_look(old(blocks)@[k]),
                    whole,
                    counter,
                ),
            forall|k: int| i <= k < n ==> #[trigger] blocks@[k] == old(blocks)@[k],
        decreases n - i,
    {
        if let Block::Para(para) = &mut blocks[i] {
            if para.props.jc.is_none() {
                if whole.is_some() {
                    para.props.jc = whole;
                } else if counter.is_some() && para_has_page_field(para) {
                    para.props.jc = counter;
                }
            }
        }
        i = i + 1;
    }
}

/// The blocks of furniture in their order: what is drawn behind, the content and
/// what is drawn in front.
pub fn furniture_blocks(
    behind: Option<Block>,
    content: Vec<Block>,
    front: Option<Block>,
) -> (r: Vec<Block>)
    ensures
        r@ == (match behind {
            Some(b) => seq![b],
            None => seq![],
        }) + content@ + (match front {
            Some(b) => seq![b],
            None => seq![],
        }),
{
    let mut out: Vec<Block> = Vec::new();
    let mut content: Vec<Block> = content;
    let ghost mid = content@;
    if let Some(b) = behind {
        out.push(b);
    }
    out.append(&mut content);
    if let Some(b) = front {
        out.push(b);
    }
    assert(out@ =~= (match behind {
        Some(b) => seq![b],
        None => seq![],
    }) + mid + (match front {
        Some(b) => seq![b],
        None => seq![],
    }));
    out
}

/// The page color to draw behind a header: none where a background drawing
/// already shows it.
pub fn page_fill(slot: FurnitureSlot, has_background: bool, geom: &SectGeom) -> (r: Option<
    [u8; 3],
>)
    ensures
        r == (if slot == FurnitureSlot::Header && !has_background {
            geom.background_color
        } else {
            None
        }),
{
    if slot == FurnitureSlot::Header && !has_background {
        geom.background_color
    } else {
        None
    }
}

// -- Drawings that cover a page ----------------------------------------------

/// A drawing that covers a page.
pub enum PageDrawing {
    /// An image of a page that is too dense for shapes.
    Dense { rel: Seq<char> },
    /// An image behind or in front of the text, with the text it shows.
    Overlay { rel: Seq<char>, behind: bool, text: Seq<char> },
    /// A page color.
    Fill { color: [u8; 3] },
}

/// A text with line breaks as spaces.
pub open spec fn on_one_line(s: Seq<char>) -> Seq<char> {
    s.map_values(|c: char| if c == '\n' {
        ' '
    } else {
        c
    })
}

/// Whether an axis of an anchor starts at the page edge.
pub open spec fn at_page_edge(pos: AnchorPos) -> bool {
    pos.rel_from@ == "page"@ && pos.align is None && pos.offset == Some(0i64)
}

/// Whether a drawing covers the page of a section.
pub open spec fn covers_page(
    d: Drawing,
    g: SectGeom,
    docpr_id: u32,
    z: u32,
    drawing: PageDrawing,
) -> bool {
    &&& d.rel@ == (match drawing {
        PageDrawing::Dense { rel } => rel,
        PageDrawing::Overlay { rel, .. } => rel,
        PageDrawing::Fill { .. } => seq![],
    })
    &&& d.svg_rel is None
    &&& d.compatibility_split_ids is None
    &&& d.w_emu == g.page_w * EMU_PER_TWIP
    &&& d.h_emu == g.page_h * EMU_PER_TWIP
    &&& d.source_offset_emu@ == seq![0i64, 0]
    &&& opt_str(d.alt) == (match drawing {
        PageDrawing::Overlay { behind: false, text, .. } => if is_blank(on_one_line(text)) {
            None
        } else {
            Some(on_one_line(text))
        },
        _ => None,
    })
    &&& d.decorative == (match drawing {
        PageDrawing::Dense { .. } => false,
        PageDrawing::Overlay { behind, .. } => behind,
        PageDrawing::Fill { .. } => true,
    })
    &&& d.docpr_id == docpr_id
    &&& d.name@ == (match drawing {
        PageDrawing::Dense { .. } => "Dense visual page "@,
        PageDrawing::Overlay { behind: true, .. } => "Background "@,
        PageDrawing::Overlay { behind: false, .. } => "Foreground "@,
        PageDrawing::Fill { .. } => "Page Color "@,
    }) + dec(docpr_id as int)
    &&& match d.anchor {
        Some(anchor) => {
            &&& anchor.z == z
            &&& at_page_edge(anchor.pos_h)
            &&& at_page_edge(anchor.pos_v)
            &&& anchor.wrap is Off
            &&& anchor.dist@ == seq![0i64, 0, 0, 0]
            &&& anchor.behind == (match drawing {
                PageDrawing::Dense { .. } => false,
                PageDrawing::Overlay { behind, .. } => behind,
                PageDrawing::Fill { .. } => true,
            })
        },
        None => false,
    }
    &&& match (d.shape, drawing) {
        (Some(shape), PageDrawing::Fill { color }) => {
            &&& shape.geom is Rect
            &&& match shape.fill {
                Some(ShapeFill::Solid(c)) => c@ == seq![color@[0], color@[1], color@[2], 255u8],
                _ => false,
            }
            &&& shape.stroke is None
            &&& shape.txbx is None
        },
        (None, PageDrawing::Fill { .. }) => false,
        (None, _) => true,
        (Some(_), _) => false,
    }
    &&& d.group is None
    &&& d.pic_clip.src_rect is None
    &&& d.pic_clip.geom is Rect
}

/// Whether a block is one drawing that covers the page of a section.
pub open spec fn is_page_block(
    block: Block,
    g: SectGeom,
    docpr_id: u32,
    z: u32,
    drawing: PageDrawing,
) -> bool {
    match block {
        Block::Para(para) => {
            &&& para.props.is_default()
            &&& para.content@.len() == 1
            &&& match para.content@[0] {
                ParaChild::Run(Run::Drawing(d)) => covers_page(d, g, docpr_id, z, drawing),
                _ => false,
            }
        },
        _ => false,
    }
}

fn page_anchor(z: u32, behind: bool) -> (r: Anchor)
    ensures
        r.z == z,
        at_page_edge(r.pos_h),
        at_page_edge(r.pos_v),
        r.wrap is Off,
        r.dist@ == seq![0i64, 0, 0, 0],
        r.behind == behind,
{
    let dist: [i64; 4] = [0, 0, 0, 0];
    assert(dist@ =~= seq![0i64, 0, 0, 0]);
    Anchor {
        z,
        pos_h: AnchorPos { rel_from: "page", align: None, offset: Some(0) },
        pos_v: AnchorPos { rel_from: "page", align: None, offset: Some(0) },
        wrap: AnchorWrap::Off,
        dist,
        behind,
    }
}

struct PageFace {
    rel: String,
    alt: Option<String>,
    decorative: bool,
    behind: bool,
    shape: Option<ShapeSpec>,
}

fn page_block(ctx: &mut DocxCtx, geom: &SectGeom, name: &str, face: PageFace) -> (r: Block)
    requires
        old(ctx).next_docpr_id < u32::MAX,
        old(ctx).next_z < u32::MAX,
    ensures
        *final(ctx) == (DocxCtx {
            next_docpr_id: (old(ctx).next_docpr_id + 1) as u32,
            next_z: (old(ctx).next_z + 1) as u32,
            ..*old(ctx)
        }),
        match r {
            Block::Para(para) => {
                &&& para.props.is_default()
                &&& para.content@.len() == 1
                &&& match para.content@[0] {
                    ParaChild::Run(Run::Drawing(d)) => {
                        &&& d.rel == face.rel
                        &&& d.svg_rel is None
                        &&& d.compatibility_split_ids is None
                        &&& d.w_emu == geom.page_w * EMU_PER_TWIP
                        &&& d.h_emu == geom.page_h * EMU_PER_TWIP
                        &&& d.source_offset_emu@ == seq![0i64, 0]
                        &&& d.alt == face.alt
                        &&& d.decorative == face.decorative
                        &&& d.docpr_id == old(ctx).next_docpr_id
                        &&& d.name@ == name@ + dec(old(ctx).next_docpr_id as int)
                        &&& d.anchor is Some
                        &&& (d.anchor->0).z == old(ctx).next_z
                        &&& at_page_edge((d.anchor->0).pos_h)
                        &&& at_page_edge((d.anchor->0).pos_v)
                        &&& (d.anchor->0).wrap is Off
                        &&& (d.anchor->0).dist@ == seq![0i64, 0, 0, 0]
                        &&& (d.anchor->0).behind == face.behind
                        &&& d.shape == face.shape
                        &&& d.group is None
                        &&& d.pic_clip.src_rect is None
                        &&& d.pic_clip.geom is Rect
                    },
                    _ => false,
                }
            },
            _ => false,
        },
{
    let docpr_id: u32 = ctx.next_drawing_id();
    let z: u32 = ctx.next_z();
    let number: String = dec_u64(docpr_id as u64);
    let origin: [i64; 2] = [0, 0];
    assert(origin@ =~= seq![0i64, 0]);
    let drawing: Drawing = Drawing {
        rel: face.rel,
        svg_rel: None,
        compatibility_split_ids: None,
        w_emu: geom.page_w as i64 * EMU_PER_TWIP,
        h_emu: geom.page_h as i64 * EMU_PER_TWIP,
        source_offset_emu: origin,
        alt: face.alt,
        decorative: face.decorative,
        docpr_id,
        name: concat2(name, number.as_str()),
        anchor: Some(page_anchor(z, face.behind)),
        shape: face.shape,
        group: None,
        pic_clip: PicClip::default(),
    };
    let mut content: Vec<ParaChild> = Vec::new();
    content.push(ParaChild::Run(Run::Drawing(drawing)));
    Block::Para(Para { props: ParaProps::default(), content })
}

fn one_line(s: &str) -> (r: String)
    ensures
        r@ == on_one_line(s@),
{
    let chars: Vec<char> = to_chars(s);
    let mut out: String = String::new();
    let mut i: usize = 0;
    assert(out@ =~= on_one_line(s@.take(0)));
    while i < chars.len()
        invariant
            i <= chars@.len(),
            chars@ == s@,
            out@ == on_one_line(s@.take(i as int)),
        decreases chars@.len() - i,
    {
        let c: char = if chars[i] == '\n' {
            ' '
        } else {
            chars[i]
        };
        push_char(&mut out, c);
        i = i + 1;
        assert(out@ =~= on_one_line(s@.take(i as int)));
    }
    assert(s@.take(i as int) =~= s@);
    out
}

/// The block of a page that is shown as one image.
pub fn dense_visual_page_block(ctx: &mut DocxCtx, rel: String, geom: &SectGeom) -> (r: Block)
    requires
        old(ctx).next_docpr_id < u32::MAX,
        old(ctx).next_z < u32::MAX,
    ensures
        is_page_block(
            r,
            *geom,
            old(ctx).next_docpr_id,
            old(ctx).next_z,
            PageDrawing::Dense { rel: rel@ },
        ),
        *final(ctx) == (DocxCtx {
            next_docpr_id: (old(ctx).next_docpr_id + 1) as u32,
            next_z: (old(ctx).next_z + 1) as u32,
            ..*old(ctx)
        }),
{
    page_block(
        ctx,
        geom,
        "Dense visual page ",
        PageFace { rel, alt: None, decorative: false, behind: false, shape: None },
    )
}

/// The block of an image behind or in front of the text of every page. In front
/// it is described by the text it shows.
pub fn page_overlay_block(
    ctx: &mut DocxCtx,
    rel: String,
    text: &str,
    behind: bool,
    geom: &SectGeom,
) -> (r: Block)
    requires
        old(ctx).next_docpr_id < u32::MAX,
        old(ctx).next_z < u32::MAX,
    ensures
        is_page_block(
            r,
            *geom,
            old(ctx).next_docpr_id,
            old(ctx).next_z,
            PageDrawing::Overlay { rel: rel@, behind, text: text@ },
        ),
        *final(ctx) == (DocxCtx {
            next_docpr_id: (old(ctx).next_docpr_id + 1) as u32,
            next_z: (old(ctx).next_z + 1) as u32,
            ..*old(ctx)
        }),
{
    if behind {
        return page_block(
            ctx,
            geom,
            "Background ",
            PageFace { rel, alt: None, decorative: true, behind: true, shape: None },
        );
    }
    let line: String = one_line(text);
    let alt: Option<String> = if blank(line.as_str()) {
        None
    } else {
        Some(line)
    };
    page_block(
        ctx,
        geom,
        "Foreground ",
        PageFace { rel, alt, decorative: false, behind: false, shape: None },
    )
}

/// The block of a page color: a rectangle behind the text of every page.
pub fn solid_page_fill_block(ctx: &mut DocxCtx, color: [u8; 3], geom: &SectGeom) -> (r: Block)
    requires
        old(ctx).next_docpr_id < u32::MAX,
        old(ctx).next_z < u32::MAX,
    ensures
        is_page_block(
            r,
            *geom,
            old(ctx).next_docpr_id,
            old(ctx).next_z,
            PageDrawing::Fill { color },
        ),
        *final(ctx) == (DocxCtx {
            next_docpr_id: (old(ctx).next_docpr_id + 1) as u32,
            next_z: (old(ctx).next_z + 1) as u32,
            ..*old(ctx)
        }),
{
    let rgba: [u8; 4] = [color[0], color[1], color[2], 255];
    assert(rgba@ =~= seq![color@[0], color@[1], color@[2], 255u8]);
    let shape: ShapeSpec = ShapeSpec {
        geom: ShapeGeom::Rect,
        fill: Some(ShapeFill::Solid(rgba)),
        stroke: None,
        txbx: None,
    };
    let rel: String = String::new();
    assert(rel@ =~= seq![]);
    page_block(
        ctx,
        geom,
        "Page Color ",
        PageFace { rel, alt: None, decorative: true, behind: true, shape: Some(shape) },
    )
}

} // verus!
