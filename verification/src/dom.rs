//! The typed intermediate representation of an exported document.

use vstd::prelude::*;

use rustc_hash::FxHashMap;

use crate::bibliography::WordSource;
use crate::rels::Rels;

verus! {

/// Compares two colors channel by channel.
pub fn rgb_eq(a: [u8; 3], b: [u8; 3]) -> (r: bool)
    ensures
        r == (a == b),
{
    let r: bool = a[0] == b[0] && a[1] == b[1] && a[2] == b[2];
    proof {
        if r {
            assert(a@ =~= b@);
            assert(a =~= b);
        }
    }
    r
}

/// Compares two optional colors.
pub fn opt_rgb_eq(a: Option<[u8; 3]>, b: Option<[u8; 3]>) -> (r: bool)
    ensures
        r == (a == b),
{
    match (a, b) {
        (Some(x), Some(y)) => rgb_eq(x, y),
        (None, None) => true,
        _ => false,
    }
}

/// A source position. Zero is the detached position, which names no source.
#[derive(Debug, Copy, Clone, PartialEq, Eq, Structural, Hash)]
pub struct Span(pub u64);

impl Span {
    /// Whether the span names no source position.
    pub open spec fn detached(self) -> bool {
        self.0 == 0
    }

    /// Whether the span names no source position.
    pub fn is_detached(self) -> (r: bool)
        ensures
            r == self.detached(),
    {
        self.0 == 0
    }
}

/// The identity of a located element.
#[derive(Debug, Copy, Clone, PartialEq, Eq, Structural, Hash)]
pub struct Location(pub u128);

/// What the exporter needs to know about the element a tag opens.
#[derive(Debug, Copy, Clone, PartialEq, Eq, Structural, Hash)]
pub enum TagElem {
    /// A `place` element.
    Place,
    /// An update of the page counter to a literal value.
    PageReset(i64),
    /// Any other element.
    Other,
}

#[allow(inconsistent_fields)]
/// An introspection tag: the start or the end of a located element.
#[derive(Debug, Copy, Clone, PartialEq, Eq, Structural, Hash)]
pub enum Tag {
    Start { location: Option<Location>, elem: TagElem },
    End { location: Location },
}

/// Process-local identity used to join an export review candidate to an
/// opt-in stable tag at serialization time.
#[derive(Debug, Copy, Clone, PartialEq, Eq, Structural, PartialOrd, Ord, Hash)]
pub struct ReviewJoinId(pub u64);

/// The kind of source-backed block offered for review tagging.
#[non_exhaustive]
#[derive(Debug, Copy, Clone, PartialEq, Eq, Structural, Hash)]
pub enum ReviewCandidateKind {
    Heading,
    Paragraph,
    ListItem,
    TableCell,
    InlineText,
}

/// Source provenance carried by a paragraph through nested structures.
#[derive(Debug, Copy, Clone, PartialEq, Eq, Structural, Hash)]
pub struct ReviewOrigin {
    pub join_id: ReviewJoinId,
    pub span: Span,
    pub kind: ReviewCandidateKind,
}

/// One conservative source-backed block that can be wrapped in a content
/// control without changing its visible content.
#[derive(Debug, Clone, PartialEq, Eq)]
pub struct ReviewCandidate {
    pub join_id: ReviewJoinId,
    pub span: Span,
    pub kind: ReviewCandidateKind,
    pub baseline: String,
}

/// A point in time, as far as it is known.
#[derive(Debug, Copy, Clone, PartialEq, Eq, Structural)]
pub struct Datetime {
    pub year: Option<i32>,
    pub month: Option<u8>,
    pub day: Option<u8>,
    pub hour: Option<u8>,
    pub minute: Option<u8>,
    pub second: Option<u8>,
}

/// The metadata of a document.
#[derive(Debug)]
pub struct DocumentInfo {
    pub title: Option<String>,
    pub author: Vec<String>,
    pub description: Option<String>,
    pub keywords: Vec<String>,
    pub date: Option<Datetime>,
}

/// A media part of the package.
#[derive(Debug)]
pub struct MediaPart {
    pub part_name: String,
    pub ext: String,
    pub bytes: Vec<u8>,
}

/// A finished document: the lowered content and what the package needs beside
/// it.
pub struct DocxDocument {
    pub info: DocumentInfo,
    pub body: Vec<Block>,
    /// The properties of the last section.
    pub sect: SectPr,
    pub footnotes: Vec<Footnote>,
    pub comments: Vec<Comment>,
    pub numbering: NumberingTable,
    pub media: Vec<MediaPart>,
    /// Font programs that may be embedded and that editable text needs.
    pub embedded_fonts: Vec<EmbeddedFontProgram>,
    pub doc_rels: Rels,
    /// Relationships of footnote bodies, which belong to the footnotes part.
    pub footnote_rels: Rels,
    /// Relationships of comment bodies, which belong to the comments part.
    pub comment_rels: Rels,
    pub max_heading_level: u8,
    pub text_defaults: TextDefaults,
    pub heading_styles: Vec<HeadingStyle>,
    pub uses_math: bool,
    pub header_parts: Vec<HdrFtrPart>,
    pub footer_parts: Vec<HdrFtrPart>,
    /// A flat page color of the whole document.
    pub background_color: Option<[u8; 3]>,
    pub hyphenate: bool,
    /// Whether a section has furniture of its own on even pages.
    pub even_and_odd_headers: bool,
    pub mirror_margins: bool,
    /// Whether a section with mirrored margins is bound on the right.
    pub rtl_gutter: bool,
    /// The bibliography in a lossless text form, beside the mapped sources.
    pub bibliography: Option<String>,
    pub word_sources: Vec<WordSource>,
    /// The font families that the content refers to.
    pub fonts: Vec<String>,
    pub review_candidates: Vec<ReviewCandidate>,
}

impl DocxDocument {
    /// The metadata of the document.
    pub fn info(&self) -> (r: &DocumentInfo)
        ensures
            *r == self.info,
    {
        &self.info
    }

    /// The blocks and texts that can be offered for review.
    pub fn review_candidates(&self) -> (r: &Vec<ReviewCandidate>)
        ensures
            *r == self.review_candidates,
    {
        &self.review_candidates
    }
}

/// One of the four embedded style slots of a font family.
#[derive(Debug, Copy, Clone, PartialEq, Eq, Structural, PartialOrd, Ord, Hash)]
pub enum EmbeddedFontStyle {
    Regular,
    Bold,
    Italic,
    BoldItalic,
}

impl EmbeddedFontStyle {
    /// The element name of the style slot.
    pub open spec fn element_spec(self) -> Seq<char> {
        match self {
            EmbeddedFontStyle::Regular => "w:embedRegular"@,
            EmbeddedFontStyle::Bold => "w:embedBold"@,
            EmbeddedFontStyle::Italic => "w:embedItalic"@,
            EmbeddedFontStyle::BoldItalic => "w:embedBoldItalic"@,
        }
    }

    /// The element name of the style slot.
    pub fn element(self) -> (r: &'static str)
        ensures
            r@ == self.element_spec(),
    {
        match self {
            EmbeddedFontStyle::Regular => "w:embedRegular",
            EmbeddedFontStyle::Bold => "w:embedBold",
            EmbeddedFontStyle::Italic => "w:embedItalic",
            EmbeddedFontStyle::BoldItalic => "w:embedBoldItalic",
        }
    }
}

/// A raw font program selected for one embedded family style.
#[derive(Debug, Clone, PartialEq, Eq)]
pub struct EmbeddedFontProgram {
    pub family: String,
    pub style: EmbeddedFontStyle,
    pub data: Vec<u8>,
}

/// A block-level body item.
#[derive(Debug)]
pub enum Block {
    Para(Para),
    Table(Tbl),
    /// Exact vertical flow space that cannot be attached to a neighboring
    /// paragraph (most commonly between two tables). Encodes as an empty
    /// paragraph with an exact line height.
    FlowSpace { dxa: i32 },
    /// A table of contents: a complex field whose cached result is a set of
    /// baked entry paragraphs.
    Toc(Toc),
    /// A non-final section break carrying its own section properties.
    SectionBreak(SectPr),
    /// A weak page break: breaks only when content precedes it on the page, and
    /// any run of them collapses to one.
    WeakPageBreak,
    /// Introspection tag passthrough.
    Tag(Tag),
}

/// A table-of-contents complex field. The field's begin, instruction and
/// separator wrap the first entry and its end closes the last, so the baked
/// entries are the field's cached result. When there are no entries the
/// fallback runs are shown inside a single-paragraph field instead.
#[derive(Debug)]
pub struct Toc {
    pub instr: String,
    pub mode: FieldMode,
    /// Heading depth to populate from. `Some` marks a heading table of contents.
    pub depth: Option<usize>,
    /// Caption category to populate from. `Some` marks a list of figures or
    /// tables.
    pub caption_category: Option<String>,
    /// The exact semantic entries selected by the outline.
    pub semantic_headings: Vec<TocHeading>,
    /// Right tab position (twips) for the dot leader and the page number.
    pub tab_pos: i32,
    /// Resolved outline indentation for levels 1 through 9, in twips.
    pub entry_indents: Vec<Option<i32>>,
    /// Baked entries.
    pub entries: Vec<Para>,
    pub fallback: Vec<Run>,
}

/// A heading recorded during conversion, used to populate the table of contents
/// once every heading's bookmark is known.
#[derive(Debug, Clone)]
pub struct TocHeading {
    pub level: usize,
    pub location: Option<Location>,
    /// Source identity shared by semantic introspection and native conversion.
    pub source_span: Span,
    /// Physical page captured from the semantic outline target.
    pub page_text: Option<String>,
    /// The heading's bookmark name, when it emitted one.
    pub anchor: Option<String>,
    pub text: String,
}

/// A captioned figure or table recorded during conversion.
#[derive(Debug, Clone)]
pub struct TocFigure {
    /// The caption category.
    pub category: String,
    pub location: Option<Location>,
    /// The figure's bookmark name, when it emitted one.
    pub anchor: Option<String>,
    pub text: String,
}

/// A paragraph.
#[derive(Debug)]
pub struct Para {
    pub props: ParaProps,
    pub content: Vec<ParaChild>,
}

#[allow(inconsistent_fields)]
/// Paragraph-level content.
#[derive(Debug)]
pub enum ParaChild {
    Run(Run),
    /// A display equation (serialized XML).
    OmmlPara(String),
    /// A hyperlink wrapping runs.
    Hyperlink { rel: Option<String>, anchor: Option<String>, runs: Vec<Run> },
    BookmarkStart { id: u32, name: String },
    BookmarkEnd { id: u32 },
    CommentRangeStart { id: i32 },
    CommentRangeEnd { id: i32 },
    Tag(Tag),
}

/// A run-level item.
#[derive(Debug)]
pub enum Run {
    Text { props: RunProps, text: String },
    Break { kind: BreakKind },
    PageBreak,
    /// Moves the following content to the next column of a multi-column section.
    ColumnBreak,
    Tab,
    /// A tab from fractional horizontal space. Encoded as a tab, but its
    /// paragraph gains a right-aligned tab stop at the content width so that it
    /// pushes the following content to the right margin.
    FillTab,
    FootnoteRef {
        props: RunProps,
        id: i32,
        /// Bookmark around the first native reference mark, which later
        /// references to the same note target with a field.
        bookmark: Option<(u32, String)>,
    },
    /// The footnote number mark inside a footnote body.
    FootnoteRefMark,
    /// The reference mark of a comment.
    CommentReference { props: RunProps, id: i32 },
    Drawing(Drawing),
    /// An inline equation (serialized XML).
    OmmlInline(String),
    Field(Field),
}

/// Why a run-level line break exists.
#[derive(Debug, Copy, Clone, PartialEq, Eq, Structural)]
pub enum BreakKind {
    /// An authored line break whose trailing position is meaningful.
    Authored,
    /// A fallback for paragraph or vertical separation in a run-only context.
    Structure,
}

/// The document's root text properties. Per-run properties carry only what
/// deviates from these.
#[derive(Debug, Clone)]
pub struct TextDefaults {
    /// Default font family.
    pub font: Option<String>,
    /// Default size in half-points.
    pub size_half_pt: u32,
    /// Default text color; `None` when it is not a single solid color.
    pub color: Option<[u8; 3]>,
    /// Language tag for spell-checking.
    pub lang: Option<String>,
}

impl Default for TextDefaults {
    /// Eleven points, with no font, color or language of its own.
    fn default() -> (r: Self)
        ensures
            r.font is None,
            r.size_half_pt == 22,
            r.color is None,
            r.lang is None,
    {
        TextDefaults { font: None, size_half_pt: 22, color: None, lang: None }
    }
}

/// A document-derived heading style definition.
#[derive(Debug, Clone)]
pub struct HeadingStyle {
    pub level: u8,
    /// Run properties owned by the style.
    pub rpr: RunProps,
    /// Paragraph spacing owned by the style when all headings at this level
    /// agree.
    pub spacing: Option<Spacing>,
    /// The numbering instance this style joins, when the heading numbers are
    /// live.
    pub num_id: Option<u32>,
}

/// One resolved heading style sample recorded while lowering a heading.
#[derive(Debug, Clone)]
pub struct HeadingStyleSample {
    pub level: u8,
    pub rpr: RunProps,
}

/// Flattened character formatting.
#[derive(Debug, Clone)]
pub struct RunProps {
    /// Non-serialized provenance for opt-in inline review controls.
    pub review_origin: Option<ReviewOrigin>,
    pub style: Option<String>,
    pub font: Option<String>,
    /// True when bold came from a semantic strong wrapper.
    pub strong: bool,
    pub bold: bool,
    /// True when italic came from a semantic emphasis wrapper.
    pub emphasis: bool,
    pub italic: bool,
    pub caps: bool,
    pub smallcaps: bool,
    pub strike: bool,
    /// Disables spelling and grammar proofing for code runs.
    pub no_proof: bool,
    pub color: Option<[u8; 3]>,
    /// Gradient text fill, set alongside a flat fallback `color`.
    pub text_fill: Option<TextFill>,
    /// Keep an explicitly styled hyperlink color as direct formatting even when
    /// it matches a hoisted document or heading default.
    pub preserve_color: bool,
    /// Character spacing in signed twips.
    pub tracking: Option<i32>,
    /// Baseline shift in signed half-points; positive is raised.
    pub position_half_pt: Option<i32>,
    pub size_half_pt: Option<u32>,
    /// A named text highlighter color.
    pub highlight: Option<&'static str>,
    pub shd_fill: Option<[u8; 3]>,
    /// A character border box.
    pub bdr: Option<ParaBorder>,
    pub underline: Option<Underline>,
    /// Hidden text.
    pub vanish: bool,
    pub vert_align: Option<VertAlign>,
    /// The run's reading order is right to left.
    pub rtl: bool,
    /// Use complex-script formatting for this run.
    pub cs: bool,
    pub lang: Option<String>,
}

impl RunProps {
    /// Whether no property is set.
    pub open spec fn is_default(self) -> bool {
        &&& self.review_origin is None
        &&& self.style is None
        &&& self.font is None
        &&& !self.strong
        &&& !self.bold
        &&& !self.emphasis
        &&& !self.italic
        &&& !self.caps
        &&& !self.smallcaps
        &&& !self.strike
        &&& !self.no_proof
        &&& self.color is None
        &&& self.text_fill is None
        &&& !self.preserve_color
        &&& self.tracking is None
        &&& self.position_half_pt is None
        &&& self.size_half_pt is None
        &&& self.highlight is None
        &&& self.shd_fill is None
        &&& self.bdr is None
        &&& self.underline is None
        &&& !self.vanish
        &&& self.vert_align is None
        &&& !self.rtl
        &&& !self.cs
        &&& self.lang is None
    }
}

impl Default for RunProps {
    fn default() -> (r: Self)
        ensures
            r.is_default(),
    {
        RunProps {
            review_origin: None,
            style: None,
            font: None,
            strong: false,
            bold: false,
            emphasis: false,
            italic: false,
            caps: false,
            smallcaps: false,
            strike: false,
            no_proof: false,
            color: None,
            text_fill: None,
            preserve_color: false,
            tracking: None,
            position_half_pt: None,
            size_half_pt: None,
            highlight: None,
            shd_fill: None,
            bdr: None,
            underline: None,
            vanish: false,
            vert_align: None,
            rtl: false,
            cs: false,
            lang: None,
        }
    }
}

/// One stop of a gradient.
#[derive(Debug, Copy, Clone, PartialEq, Eq)]
pub struct GradientStop {
    /// Position in 1/1000 of a percent.
    pub pos_100k: i32,
    pub color: [u8; 4],
}

/// Gradient text fill geometry.
#[derive(Debug, Clone, PartialEq)]
pub enum TextFill {
    Linear { angle_60k: i32, stops: Vec<GradientStop> },
    Radial { stops: Vec<GradientStop>, focal_center_100k: [i32; 2], focal_radius_100k: i32 },
}

#[derive(Debug, Copy, Clone, PartialEq, Eq, Structural)]
pub enum VertAlign {
    Super,
    Sub,
}

/// An underline: a line style plus an optional explicit color.
#[derive(Debug, Copy, Clone, PartialEq)]
pub struct Underline {
    /// The line style, such as `single`, `double` or `dotted`.
    pub val: &'static str,
    /// The line's own color; `None` makes it follow the text color.
    pub color: Option<[u8; 3]>,
}

impl Underline {
    /// A plain single underline with no color of its own.
    pub fn single() -> (r: Self)
        ensures
            r.val@ == "single"@,
            r.color is None,
    {
        Underline { val: "single", color: None }
    }

    /// Explicitly disables an underline inherited from a character style.
    pub fn none() -> (r: Self)
        ensures
            r.val@ == "none"@,
            r.color is None,
    {
        Underline { val: "none", color: None }
    }
}

/// Paragraph formatting.
#[derive(Debug, Clone)]
pub struct ParaProps {
    /// Non-serialized provenance for opt-in review controls.
    pub review_origin: Option<ReviewOrigin>,
    /// Non-serialized paragraph-spacing component above.
    pub typst_par_spacing_before: Option<i32>,
    /// Non-serialized paragraph-spacing component below.
    pub typst_par_spacing_after: Option<i32>,
    pub style: Option<String>,
    pub keep_next: bool,
    /// Ensure this paragraph starts on a new page.
    pub page_break_before: bool,
    /// Keep all lines on one page.
    pub keep_lines: bool,
    pub num: Option<(u32, u8)>,
    /// No line numbers for this paragraph inside a numbered section.
    pub suppress_line_numbers: bool,
    /// The paragraph's base reading order is right to left.
    pub bidi: bool,
    pub spacing: Option<Spacing>,
    pub ind: Option<Indent>,
    /// Suppress space between like paragraphs.
    pub contextual_spacing: bool,
    pub jc: Option<Jc>,
    pub outline_lvl: Option<u8>,
    pub tabs: Vec<TabStop>,
    /// Paragraph shading.
    pub shd_fill: Option<[u8; 3]>,
    /// Paragraph borders.
    pub pbdr: Option<ParaBorders>,
}

impl ParaProps {
    /// Whether no property is set.
    pub open spec fn is_default(self) -> bool {
        &&& self.review_origin is None
        &&& self.typst_par_spacing_before is None
        &&& self.typst_par_spacing_after is None
        &&& self.style is None
        &&& !self.keep_next
        &&& !self.page_break_before
        &&& !self.keep_lines
        &&& self.num is None
        &&& !self.suppress_line_numbers
        &&& !self.bidi
        &&& self.spacing is None
        &&& self.ind is None
        &&& !self.contextual_spacing
        &&& self.jc is None
        &&& self.outline_lvl is None
        &&& self.tabs@ == Seq::<TabStop>::empty()
        &&& self.shd_fill is None
        &&& self.pbdr is None
    }
}

impl Default for ParaProps {
    fn default() -> (r: Self)
        ensures
            r.is_default(),
    {
        ParaProps {
            review_origin: None,
            typst_par_spacing_before: None,
            typst_par_spacing_after: None,
            style: None,
            keep_next: false,
            page_break_before: false,
            keep_lines: false,
            num: None,
            suppress_line_numbers: false,
            bidi: false,
            spacing: None,
            ind: None,
            contextual_spacing: false,
            jc: None,
            outline_lvl: None,
            tabs: Vec::new(),
            shd_fill: None,
            pbdr: None,
        }
    }
}

/// The four sides of a paragraph border.
#[derive(Debug, Copy, Clone, PartialEq)]
pub struct ParaBorders {
    pub top: Option<ParaBorder>,
    pub left: Option<ParaBorder>,
    pub bottom: Option<ParaBorder>,
    pub right: Option<ParaBorder>,
}

impl ParaBorders {
    /// Whether all four sides are absent.
    pub fn is_empty(&self) -> (r: bool)
        ensures
            r == (self.top is None && self.left is None && self.bottom is None && self.right is None),
    {
        self.top.is_none() && self.left.is_none() && self.bottom.is_none() && self.right.is_none()
    }
}

impl Default for ParaBorders {
    fn default() -> (r: Self)
        ensures
            r.top is None && r.left is None && r.bottom is None && r.right is None,
    {
        ParaBorders { top: None, left: None, bottom: None, right: None }
    }
}

/// One side of a paragraph border.
#[derive(Debug, Copy, Clone, PartialEq)]
pub struct ParaBorder {
    /// The line style.
    pub style: &'static str,
    /// Width in eighths of a point.
    pub sz: u32,
    /// Distance in points.
    pub space: u32,
    pub color: [u8; 3],
}

#[derive(Debug, Copy, Clone, PartialEq, Eq, Structural)]
pub enum Jc {
    Start,
    End,
    Center,
    Both,
}

#[derive(Debug, Copy, Clone, PartialEq, Eq, Structural)]
pub struct Spacing {
    pub before: Option<i32>,
    pub after: Option<i32>,
    pub line: Option<i32>,
    /// The line value is in 240ths of a line. Mutually exclusive with
    /// `line_rule_at_least`; neither means exact.
    pub line_rule_auto: bool,
    /// The line value is a twip minimum.
    pub line_rule_at_least: bool,
}

impl Default for Spacing {
    fn default() -> (r: Self)
        ensures
            r == (Spacing {
                before: None,
                after: None,
                line: None,
                line_rule_auto: false,
                line_rule_at_least: false,
            }),
    {
        Spacing {
            before: None,
            after: None,
            line: None,
            line_rule_auto: false,
            line_rule_at_least: false,
        }
    }
}

#[derive(Debug, Copy, Clone, PartialEq, Eq, Structural)]
pub struct Indent {
    pub left: Option<i32>,
    pub right: Option<i32>,
    pub first_line: Option<i32>,
    pub hanging: Option<i32>,
}

impl Default for Indent {
    fn default() -> (r: Self)
        ensures
            r == (Indent { left: None, right: None, first_line: None, hanging: None }),
    {
        Indent { left: None, right: None, first_line: None, hanging: None }
    }
}

#[derive(Debug, Copy, Clone, PartialEq, Eq, Structural)]
pub struct TabStop {
    pub val: TabAlign,
    pub leader: Option<TabLeader>,
    pub pos: i32,
}

#[derive(Debug, Copy, Clone, PartialEq, Eq, Structural)]
pub enum TabAlign {
    Start,
    End,
    Center,
}

#[derive(Debug, Copy, Clone, PartialEq, Eq, Structural)]
pub enum TabLeader {
    Dot,
    Hyphen,
    Underscore,
}

/// Who owns the value of a field after export.
#[derive(Debug, Copy, Clone, PartialEq, Eq, Structural)]
pub enum FieldMode {
    /// The exporter owns the cached result; the field is locked against a
    /// global refresh.
    Static,
    /// The consumer owns the value and updates it through its normal layout.
    Live,
}

/// Whether a field result participates in the visible document.
#[derive(Debug, Copy, Clone, PartialEq, Eq, Structural)]
pub enum FieldDisplay {
    Visible,
    Hidden,
}

/// Provenance of the cached result carried by a complex field.
#[derive(Debug, Copy, Clone, PartialEq, Eq, Structural)]
pub enum FieldCacheStatus {
    /// A usable cached result.
    Resolved,
    /// A visible placeholder that the consumer refreshes.
    BestEffort,
    /// Intentionally left for the consumer to compute, or hidden.
    ConsumerRequired,
    /// Computing a cache was attempted and failed.
    Unavailable,
}

impl FieldMode {
    /// Whether the field is locked.
    pub fn locked(self) -> (r: bool)
        ensures
            r == (self == FieldMode::Static),
    {
        self == FieldMode::Static
    }
}

/// A complex field with an explicit value-ownership policy.
#[derive(Debug)]
pub struct Field {
    pub instr: String,
    pub result: Vec<Run>,
    pub mode: FieldMode,
    pub display: FieldDisplay,
    pub cache_status: FieldCacheStatus,
}

/// An image, inline or floating.
#[derive(Debug)]
pub struct Drawing {
    /// The raster image relationship.
    pub rel: String,
    /// Optional vector image relationship, beside the raster fallback.
    pub svg_rel: Option<String>,
    /// Optional pair of document-property identifiers for a fallback that tiles
    /// one raster into two bands.
    pub compatibility_split_ids: Option<[u32; 2]>,
    pub w_emu: i64,
    pub h_emu: i64,
    /// Source-space origin normalized out of a native shape path.
    pub source_offset_emu: [i64; 2],
    pub alt: Option<String>,
    /// Decorative drawings are skipped by assistive technology.
    pub decorative: bool,
    pub docpr_id: u32,
    pub name: String,
    /// `None` is inline, `Some` is floating.
    pub anchor: Option<Anchor>,
    /// `None` is a raster picture, `Some` a vector shape.
    pub shape: Option<ShapeSpec>,
    /// Several native shapes composed together, taking priority over `shape`
    /// and `rel`.
    pub group: Option<GroupSpec>,
    /// How the raster picture is framed.
    pub pic_clip: PicClip,
}

/// The framing of a raster picture: the preset outline it is cut to, and which
/// part of the source image shows through it.
#[derive(Debug, Copy, Clone, PartialEq, Eq)]
pub struct PicClip {
    pub geom: PicGeom,
    /// `[left, top, right, bottom]` insets in 1/1000 of a percent of the source
    /// image, or `None` for the whole image.
    pub src_rect: Option<[i32; 4]>,
}

/// A raster picture's preset outline.
#[derive(Debug, Copy, Clone, PartialEq, Eq, Structural)]
pub enum PicGeom {
    /// An ordinary, unclipped picture.
    Rect,
    /// The corner radius in 1/1000 of a percent of the shorter side.
    RoundRect { adj_100k: i32 },
}

impl Default for PicGeom {
    fn default() -> (r: Self)
        ensures
            r == PicGeom::Rect,
    {
        PicGeom::Rect
    }
}

impl Default for PicClip {
    fn default() -> (r: Self)
        ensures
            r == (PicClip { geom: PicGeom::Rect, src_rect: None }),
    {
        PicClip { geom: PicGeom::Rect, src_rect: None }
    }
}

impl Drawing {
    /// Whether the drawing's shape, or a shape of its group, frames text.
    pub open spec fn native_text(self) -> bool {
        ||| (self.shape matches Some(shape) && shape.txbx is Some)
        ||| (self.group matches Some(group) && exists|i: int|
            0 <= i < group.children@.len() && (#[trigger] group.children@[i]).shape.txbx is Some)
    }

    /// Whether the drawing's shape, or a shape of its group, frames text.
    #[verifier::loop_isolation(false)]
    pub fn has_native_text(&self) -> (r: bool)
        ensures
            r == self.native_text(),
    {
        if let Some(shape) = &self.shape {
            if shape.txbx.is_some() {
                return true;
            }
        }
        if let Some(group) = &self.group {
            let mut i: usize = 0;
            while i < group.children.len()
                invariant
                    i <= group.children.len(),
                    forall|k: int| 0 <= k < i ==> (#[trigger] group.children@[k]).shape.txbx is None,
                decreases group.children.len() - i,
            {
                if group.children[i].shape.txbx.is_some() {
                    return true;
                }
                i = i + 1;
            }
        }
        false
    }
}

/// Several native shapes sharing one local coordinate space.
#[derive(Debug)]
pub struct GroupSpec {
    pub children: Vec<GroupChild>,
}

/// One shape within a [`GroupSpec`], positioned in the group's own local
/// coordinate space.
#[derive(Debug)]
pub struct GroupChild {
    pub x_emu: i64,
    pub y_emu: i64,
    pub w_emu: i64,
    pub h_emu: i64,
    pub shape: ShapeSpec,
}

/// A vector shape.
#[derive(Debug)]
pub struct ShapeSpec {
    pub geom: ShapeGeom,
    /// The shape's fill, or `None` for no fill.
    pub fill: Option<ShapeFill>,
    pub stroke: Option<ShapeStroke>,
    /// Editable text framed by the shape.
    pub txbx: Option<TextBox>,
}

/// The image of a tiled fill.
#[derive(Debug, Clone, PartialEq)]
pub enum TileImage {
    /// A media part not yet bound to a relationship.
    Media(u32),
    /// A relationship identifier.
    Rel(String),
}

/// A shape's fill.
#[derive(Debug, Clone, PartialEq)]
pub enum ShapeFill {
    Solid([u8; 4]),
    LinearGradient { angle_60k: i32, stops: Vec<GradientStop> },
    RadialGradient {
        stops: Vec<GradientStop>,
        center_100k: [i32; 2],
        radius_100k: i32,
        focal_center_100k: [i32; 2],
        focal_radius_100k: i32,
    },
    Tile {
        image: TileImage,
        tx_emu: i64,
        ty_emu: i64,
        sx_100k: i32,
        sy_100k: i32,
        algn: &'static str,
    },
}

/// A shape's outline.
#[derive(Debug, Copy, Clone, PartialEq)]
pub struct ShapeStroke {
    pub color: [u8; 4],
    pub w_emu: i64,
    pub cap: &'static str,
    pub dash: Option<&'static str>,
}

/// One segment of a vector path, in EMU.
#[derive(Debug, Copy, Clone, PartialEq, Eq, Structural)]
pub enum PathSegment {
    MoveTo(i64, i64),
    LineTo(i64, i64),
    CubicTo(i64, i64, i64, i64, i64, i64),
    Close,
}

/// The text-box content of a shape: paragraphs the consumer can edit, with the
/// box's inset as `[left, top, right, bottom]` in EMU.
#[derive(Debug)]
pub struct TextBox {
    pub ins: [i64; 4],
    pub blocks: Vec<Block>,
    pub wrap: TextBoxWrap,
    /// Let the consumer resize the shape to its text.
    pub autofit: bool,
}

#[derive(Debug, Copy, Clone, PartialEq, Eq, Structural)]
pub enum TextBoxWrap {
    /// Respect the measured frame width and reflow text within it.
    Square,
    /// Natural-width placed text.
    Off,
}

/// A shape's geometry. Coordinates of a path are in EMU within the shape's
/// bounding box.
#[derive(Debug)]
pub enum ShapeGeom {
    Rect,
    /// The corner radius in 1/1000 of a percent of the shorter side.
    RoundRect { adj_100k: i32 },
    Ellipse,
    Path(Vec<PathSegment>),
}

/// Floating-image placement.
#[derive(Debug, Copy, Clone, PartialEq)]
pub struct Anchor {
    /// Stacking order.
    pub z: u32,
    pub pos_h: AnchorPos,
    pub pos_v: AnchorPos,
    pub wrap: AnchorWrap,
    /// Distances `[top, bottom, left, right]` in EMU.
    pub dist: [i64; 4],
    /// Place the drawing behind the text.
    pub behind: bool,
}

/// One axis of an anchor position.
#[derive(Debug, Copy, Clone, PartialEq)]
pub struct AnchorPos {
    pub rel_from: &'static str,
    /// Exactly one of `align` and `offset` is `Some`.
    pub align: Option<&'static str>,
    /// Offset in EMU.
    pub offset: Option<i64>,
}

/// The wrap mode for a floating drawing.
#[derive(Debug, Copy, Clone, PartialEq)]
pub enum AnchorWrap {
    /// Text flows above and below.
    TopAndBottom,
    /// Text wraps around the box.
    Square(&'static str),
    /// The drawing floats over the text.
    Off,
}

/// A table.
#[derive(Debug)]
pub struct Tbl {
    pub props: TblProps,
    pub grid: Vec<i32>,
    pub rows: Vec<Row>,
}

#[derive(Debug, Clone)]
pub struct TblProps {
    pub width_dxa: Option<i32>,
    pub style: Option<String>,
    pub jc: Option<Jc>,
    /// The table's left offset from the text margin (twips).
    pub ind_dxa: Option<i32>,
}

impl Default for TblProps {
    fn default() -> (r: Self)
        ensures
            r.width_dxa is None && r.style is None && r.jc is None && r.ind_dxa is None,
    {
        TblProps { width_dxa: None, style: None, jc: None, ind_dxa: None }
    }
}

#[derive(Debug)]
pub struct Row {
    pub header: bool,
    pub cant_split: bool,
    pub height: Option<RowHeight>,
    pub cells: Vec<Cell>,
}

#[derive(Debug, Copy, Clone, PartialEq, Eq, Structural)]
pub struct RowHeight {
    pub val: i32,
    pub exact: bool,
}

#[derive(Debug)]
pub struct Cell {
    pub w_dxa: Option<i32>,
    pub grid_span: u32,
    pub v_merge: Option<VMerge>,
    pub borders: CellBorders,
    pub shd_fill: Option<[u8; 3]>,
    pub margins: CellMargins,
    pub valign: Option<VAlign>,
    pub blocks: Vec<Block>,
}

#[derive(Debug, Copy, Clone, PartialEq, Eq, Structural)]
pub struct CellMargins {
    pub top: i32,
    pub right: i32,
    pub bottom: i32,
    pub left: i32,
}

impl Default for CellMargins {
    fn default() -> (r: Self)
        ensures
            r == (CellMargins { top: 0, right: 0, bottom: 0, left: 0 }),
    {
        CellMargins { top: 0, right: 0, bottom: 0, left: 0 }
    }
}

#[derive(Debug, Copy, Clone, PartialEq, Eq, Structural)]
pub enum VMerge {
    Restart,
    Continue,
}

#[derive(Debug, Copy, Clone, PartialEq, Eq, Structural)]
pub enum VAlign {
    Top,
    Center,
    Bottom,
}

#[derive(Debug, Copy, Clone, PartialEq, Eq)]
pub struct CellBorders {
    pub top: Option<Border>,
    pub bottom: Option<Border>,
    pub left: Option<Border>,
    pub right: Option<Border>,
}

impl Default for CellBorders {
    fn default() -> (r: Self)
        ensures
            r == (CellBorders { top: None, bottom: None, left: None, right: None }),
    {
        CellBorders { top: None, bottom: None, left: None, right: None }
    }
}

#[derive(Debug, Copy, Clone, PartialEq, Eq)]
pub struct Border {
    /// Width in eighths of a point.
    pub sz: u32,
    pub color: [u8; 3],
}

/// Page setup of a section. Lengths are in twips.
#[derive(Debug, Clone)]
pub struct SectPr {
    pub page_w: i32,
    pub page_h: i32,
    pub landscape: bool,
    pub margin_top: i32,
    pub margin_bottom: i32,
    pub margin_left: i32,
    pub margin_right: i32,
    pub header: i32,
    pub footer: i32,
    pub columns: u32,
    /// Binding allowance.
    pub gutter: i32,
    /// Equal-width column gutter.
    pub col_space: i32,
    /// Section line numbering.
    pub line_numbers: Option<LineNumbering>,
    /// Page-number format and start.
    pub pg_num: Option<PgNumType>,
    /// How the section starts; `None` is a new page.
    pub sect_type: Option<SectType>,
    /// Vertical alignment of the section body; `None` is the top.
    pub vertical_align: Option<VAlign>,
    pub headers: Vec<HdrFtrRef>,
    pub footers: Vec<HdrFtrRef>,
    /// Whether the first page is distinct.
    pub title_pg: bool,
}

/// Line numbering settings.
#[derive(Debug, Copy, Clone, PartialEq)]
pub struct LineNumbering {
    pub count_by: u32,
    pub start: u32,
    /// `continuous`, `newPage` or `newSection`.
    pub restart: &'static str,
    /// Distance between the body text and the line number in twips.
    pub distance: i32,
}

/// Page-number format and start.
#[derive(Debug, Copy, Clone, PartialEq)]
pub struct PgNumType {
    /// Such as `decimal` or `lowerRoman`.
    pub fmt: &'static str,
    /// First page number of the section, when it restarts.
    pub start: Option<i64>,
}

/// How a section starts.
#[derive(Debug, Copy, Clone, PartialEq, Eq, Structural)]
pub enum SectType {
    NextPage,
    EvenPage,
    OddPage,
    Continuous,
}

/// A header or footer reference of a section.
#[derive(Debug, Clone, PartialEq)]
pub struct HdrFtrRef {
    /// `default`, `first` or `even`.
    pub kind: &'static str,
    /// Matching relationship identifier.
    pub rel: String,
}

/// A header or footer part.
#[derive(Debug)]
pub struct HdrFtrPart {
    /// File name, such as `header1.xml`.
    pub part_name: String,
    pub is_header: bool,
    pub blocks: Vec<Block>,
    /// Relationships created while lowering this part's content.
    pub rels: Rels,
}

impl Default for SectPr {
    /// US Letter with margins of one inch.
    fn default() -> (r: Self)
        ensures
            r.page_w == 12240 && r.page_h == 15840 && !r.landscape,
            r.margin_top == 1440 && r.margin_bottom == 1440,
            r.margin_left == 1440 && r.margin_right == 1440,
            r.header == 720 && r.footer == 720,
            r.columns == 1 && r.gutter == 0 && r.col_space == 720,
            r.line_numbers is None && r.pg_num is None && r.sect_type is None,
            r.vertical_align is None,
            r.headers@.len() == 0 && r.footers@.len() == 0,
            !r.title_pg,
    {
        SectPr {
            page_w: 12240,
            page_h: 15840,
            landscape: false,
            margin_top: 1440,
            margin_bottom: 1440,
            margin_left: 1440,
            margin_right: 1440,
            header: 720,
            footer: 720,
            columns: 1,
            gutter: 0,
            col_space: 720,
            line_numbers: None,
            pg_num: None,
            sect_type: None,
            vertical_align: None,
            headers: Vec::new(),
            footers: Vec::new(),
            title_pg: false,
        }
    }
}

/// One footnote entry.
#[derive(Debug)]
pub struct Footnote {
    pub id: i32,
    pub blocks: Vec<Block>,
}

/// One comment entry.
#[derive(Debug)]
pub struct Comment {
    pub id: i32,
    pub author: Option<String>,
    pub initials: Option<String>,
    pub date: Option<String>,
    pub blocks: Vec<Block>,
}

/// The numbering table.
#[derive(Debug)]
pub struct NumberingTable {
    /// Distinct abstract numbering definitions.
    pub abstracts: Vec<AbstractNum>,
    /// Concrete instances mapping a number identifier to an abstract one.
    pub nums: Vec<NumInstance>,
}

impl Default for NumberingTable {
    fn default() -> (r: Self)
        ensures
            r.abstracts@.len() == 0,
            r.nums@.len() == 0,
    {
        NumberingTable { abstracts: Vec::new(), nums: Vec::new() }
    }
}

#[derive(Debug)]
pub struct AbstractNum {
    pub id: u32,
    pub levels: Vec<ListLevel>,
    pub multilevel: MultiLevelType,
}

#[derive(Debug, Copy, Clone, PartialEq, Eq, Structural)]
pub struct NumInstance {
    pub num_id: u32,
    pub abstract_id: u32,
    /// Optional start override of the first level.
    pub start_override: Option<u64>,
}

/// The numbering shape of a list.
#[derive(Debug, Clone, PartialEq, Eq, Hash)]
pub struct ListSpec {
    pub levels: Vec<ListLevel>,
    pub multilevel: MultiLevelType,
    pub restart_at_1: bool,
}

#[derive(Debug, Clone, PartialEq, Eq, Hash)]
pub struct ListLevel {
    pub num_fmt: NumFmt,
    pub lvl_text: String,
    pub start: u64,
    pub ind_left: i32,
    pub ind_hanging: i32,
    pub bullet_font: Option<String>,
    /// The paragraph style whose paragraphs this level numbers.
    pub pstyle: Option<String>,
}

#[derive(Debug, Copy, Clone, PartialEq, Eq, Structural, Hash)]
pub enum NumFmt {
    Bullet,
    Decimal,
    LowerLetter,
    UpperLetter,
    LowerRoman,
    UpperRoman,
    /// No number at all.
    Off,
}

impl NumFmt {
    /// The serialized name of the format.
    pub open spec fn name(self) -> Seq<char> {
        match self {
            NumFmt::Bullet => "bullet"@,
            NumFmt::Decimal => "decimal"@,
            NumFmt::LowerLetter => "lowerLetter"@,
            NumFmt::UpperLetter => "upperLetter"@,
            NumFmt::LowerRoman => "lowerRoman"@,
            NumFmt::UpperRoman => "upperRoman"@,
            NumFmt::Off => "none"@,
        }
    }

    /// The serialized name of the format.
    pub fn as_str(self) -> (r: &'static str)
        ensures
            r@ == self.name(),
    {
        match self {
            NumFmt::Bullet => "bullet",
            NumFmt::Decimal => "decimal",
            NumFmt::LowerLetter => "lowerLetter",
            NumFmt::UpperLetter => "upperLetter",
            NumFmt::LowerRoman => "lowerRoman",
            NumFmt::UpperRoman => "upperRoman",
            NumFmt::Off => "none",
        }
    }
}

#[derive(Debug, Copy, Clone, PartialEq, Eq, Structural, Hash)]
pub enum MultiLevelType {
    SingleLevel,
    Multilevel,
    HybridMultilevel,
}

impl MultiLevelType {
    /// The serialized name of the kind.
    pub open spec fn name(self) -> Seq<char> {
        match self {
            MultiLevelType::SingleLevel => "singleLevel"@,
            MultiLevelType::Multilevel => "multilevel"@,
            MultiLevelType::HybridMultilevel => "hybridMultilevel"@,
        }
    }

    /// The serialized name of the kind.
    pub fn as_str(self) -> (r: &'static str)
        ensures
            r@ == self.name(),
    {
        match self {
            MultiLevelType::SingleLevel => "singleLevel",
            MultiLevelType::Multilevel => "multilevel",
            MultiLevelType::HybridMultilevel => "hybridMultilevel",
        }
    }
}

/// Maps locations to their assigned bookmark name and identifier.
pub struct BookmarkTable {
    pub by_location: FxHashMap<u128, (String, u32)>,
    /// The bookmarks that anchor source pages, by the location that holds each.
    pub pages_by_location: FxHashMap<u128, (String, u32)>,
}

} // verus!
