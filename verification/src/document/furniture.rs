//! Headers and footers: which variants there are, where they stand and what they
//! hold.

use vstd::prelude::*;

use crate::dom::{Block, Para, ParaChild, Run, SectPr, Tag};
use crate::length::{add_sat, sat32};
use crate::rels::Rels;
use crate::text::str_eq;

verus! {

/// Where page furniture stands.
#[derive(Debug, Copy, Clone, PartialEq, Eq, Structural)]
pub enum FurnitureSlot {
    Header,
    Footer,
}

impl FurnitureSlot {
    /// Whether the slot is the header.
    pub fn is_header(self) -> (r: bool)
        ensures
            r == (self == FurnitureSlot::Header),
    {
        self == FurnitureSlot::Header
    }
}

/// Page furniture lowered for one page.
#[derive(Debug)]
pub struct LoweredFurniture {
    pub blocks: Vec<Block>,
    pub rels: Rels,
    /// What the furniture shows, for comparison between pages.
    pub signature: String,
    /// Whether the furniture stands even without blocks.
    pub emit_empty: bool,
}

/// One variant of page furniture.
#[derive(Debug)]
pub struct FurnitureRefPlan {
    pub kind: &'static str,
    pub lowered: LoweredFurniture,
}

/// The variants of page furniture. A document can tell the first page, even
/// pages and the others apart; what varies more is sampled.
#[derive(Debug)]
pub enum FurniturePlan {
    Exact { title_page: bool, refs: Vec<FurnitureRefPlan> },
    Sampled { first: LoweredFurniture },
}

/// Page furniture lowered for the pages two to five.
#[derive(Debug)]
pub struct FurnitureSamples {
    pub even: LoweredFurniture,
    pub odd: LoweredFurniture,
    pub even_again: LoweredFurniture,
    pub odd_again: LoweredFurniture,
}

/// The variants as kinds and contents.
pub open spec fn ref_items(refs: Seq<FurnitureRefPlan>) -> Seq<(Seq<char>, LoweredFurniture)> {
    refs.map_values(|r: FurnitureRefPlan| (r.kind@, r.lowered))
}

/// Whether even pages agree with each other, and odd pages do.
pub open spec fn parity_stable(s: FurnitureSamples) -> bool {
    s.even.signature@ == s.even_again.signature@ && s.odd.signature@ == s.odd_again.signature@
}

/// The variants of stable furniture: the others always, even pages and the first
/// page where they differ from the odd ones.
pub open spec fn variants(first: LoweredFurniture, s: FurnitureSamples) -> Seq<
    (Seq<char>, LoweredFurniture),
> {
    let needs_even = s.even.signature@ != s.odd.signature@;
    let needs_first = first.signature@ != s.odd.signature@;
    if needs_first && needs_even {
        seq![("first"@, first), ("even"@, s.even), ("default"@, s.odd)]
    } else if needs_first {
        seq![("first"@, first), ("default"@, s.odd)]
    } else if needs_even {
        seq![("even"@, s.even), ("default"@, first)]
    } else {
        seq![("default"@, first)]
    }
}

/// Plans page furniture from what it shows on the first pages. Furniture that
/// does not depend on the page has no samples.
pub fn preflight_furniture(first: LoweredFurniture, samples: Option<FurnitureSamples>) -> (r:
    FurniturePlan)
    ensures
        match (samples, r) {
            (None, FurniturePlan::Exact { title_page, refs }) => {
                &&& !title_page
                &&& ref_items(refs@) == seq![("default"@, first)]
            },
            (Some(s), FurniturePlan::Exact { title_page, refs }) => {
                &&& parity_stable(s)
                &&& title_page == (first.signature@ != s.odd.signature@)
                &&& ref_items(refs@) == variants(first, s)
            },
            (Some(s), FurniturePlan::Sampled { first: f }) => !parity_stable(s) && f == first,
            _ => false,
        },
{
    let mut refs: Vec<FurnitureRefPlan> = Vec::new();
    let s: FurnitureSamples = match samples {
        Some(s) => s,
        None => {
            refs.push(FurnitureRefPlan { kind: "default", lowered: first });
            assert(ref_items(refs@) =~= seq![("default"@, first)]);
            return FurniturePlan::Exact { title_page: false, refs };
        },
    };
    if !str_eq(s.even.signature.as_str(), s.even_again.signature.as_str()) || !str_eq(
        s.odd.signature.as_str(),
        s.odd_again.signature.as_str(),
    ) {
        return FurniturePlan::Sampled { first };
    }
    let needs_even: bool = !str_eq(s.even.signature.as_str(), s.odd.signature.as_str());
    let needs_first: bool = !str_eq(first.signature.as_str(), s.odd.signature.as_str());
    if needs_first {
        refs.push(FurnitureRefPlan { kind: "first", lowered: first });
        if needs_even {
            refs.push(FurnitureRefPlan { kind: "even", lowered: s.even });
        }
        refs.push(FurnitureRefPlan { kind: "default", lowered: s.odd });
    } else {
        if needs_even {
            refs.push(FurnitureRefPlan { kind: "even", lowered: s.even });
        }
        refs.push(FurnitureRefPlan { kind: "default", lowered: first });
    }
    assert(ref_items(refs@) =~= variants(first, s));
    FurniturePlan::Exact { title_page: needs_first, refs }
}

// -- Heights -----------------------------------------------------------------

/// The blocks that are no tags.
pub open spec fn solid(blocks: Seq<Block>) -> Seq<Block> {
    blocks.filter(|b: Block| !(b is Tag))
}

/// The larger of two numbers.
pub open spec fn larger(a: u32, b: u32) -> u32 {
    if a < b {
        b
    } else {
        a
    }
}

/// The text size of a run in a line of text, in half-points; `None` for a run
/// whose height is not that of text.
pub open spec fn run_size(run: Run) -> Option<u32> {
    match run {
        Run::Text { props, text: _ } => Some(
            match props.size_half_pt {
                Some(n) => n,
                None => 0,
            },
        ),
        Run::FootnoteRef { props, id: _, bookmark: _ } => Some(
            match props.size_half_pt {
                Some(n) => n,
                None => 0,
            },
        ),
        Run::Tab | Run::FillTab | Run::CommentReference { .. } => Some(0),
        _ => None,
    }
}

/// The largest of text sizes; `None` where one is missing.
pub open spec fn largest_size(runs: Seq<Run>) -> Option<u32>
    decreases runs.len(),
{
    if runs.len() == 0 {
        Some(0)
    } else {
        match (largest_size(runs.drop_last()), run_size(runs.last())) {
            (Some(a), Some(b)) => Some(larger(a, b)),
            _ => None,
        }
    }
}

/// The text size of a paragraph child.
pub open spec fn child_size(child: ParaChild) -> Option<u32> {
    match child {
        ParaChild::Run(run) => run_size(run),
        ParaChild::Hyperlink { rel: _, anchor: _, runs } => largest_size(runs@),
        ParaChild::OmmlPara(_) => None,
        _ => Some(0),
    }
}

/// The largest text size among paragraph children.
pub open spec fn content_size(content: Seq<ParaChild>) -> Option<u32>
    decreases content.len(),
{
    if content.len() == 0 {
        Some(0)
    } else {
        match (content_size(content.drop_last()), child_size(content.last())) {
            (Some(a), Some(b)) => Some(larger(a, b)),
            _ => None,
        }
    }
}

/// The height of a line of text in twips: that of its largest size. `None` where
/// it has none.
pub open spec fn line_height(content: Seq<ParaChild>) -> Option<i32> {
    match content_size(content) {
        Some(size) => if size > 0 {
            Some(sat32(size * 10))
        } else {
            None
        },
        None => None,
    }
}

/// The height of furniture that is one line of text.
pub open spec fn single_line(blocks: Seq<Block>) -> Option<i32> {
    if solid(blocks).len() == 1 {
        match solid(blocks)[0] {
            Block::Para(para) => line_height(para.content@),
            _ => None,
        }
    } else {
        None
    }
}

fn size_of(run: &Run) -> (r: Option<u32>)
    ensures
        r == run_size(*run),
{
    match run {
        Run::Text { props, text: _ } => Some(
            match props.size_half_pt {
                Some(n) => n,
                None => 0,
            },
        ),
        Run::FootnoteRef { props, id: _, bookmark: _ } => Some(
            match props.size_half_pt {
                Some(n) => n,
                None => 0,
            },
        ),
        Run::Tab | Run::FillTab | Run::CommentReference { .. } => Some(0),
        _ => None,
    }
}

proof fn lemma_largest_none(runs: Seq<Run>, k: int)
    requires
        0 <= k < runs.len(),
        run_size(runs[k]) is None,
    ensures
        largest_size(runs) is None,
    decreases runs.len(),
{
    if k < runs.len() - 1 {
        lemma_largest_none(runs.drop_last(), k);
    }
}

fn size_of_runs(runs: &Vec<Run>) -> (r: Option<u32>)
    ensures
        r == largest_size(runs@),
{
    let mut most: u32 = 0;
    let mut i: usize = 0;
    while i < runs.len()
        invariant
            i <= runs@.len(),
            largest_size(runs@.take(i as int)) == Some(most),
        decreases runs@.len() - i,
    {
        assert(runs@.take(i + 1).drop_last() =~= runs@.take(i as int));
        match size_of(&runs[i]) {
            Some(n) => {
                if n > most {
                    most = n;
                }
            },
            None => {
                proof {
                    lemma_largest_none(runs@, i as int);
                }
                return None;
            },
        }
        i = i + 1;
    }
    assert(runs@.take(i as int) =~= runs@);
    Some(most)
}

proof fn lemma_content_none(content: Seq<ParaChild>, k: int)
    requires
        0 <= k < content.len(),
        child_size(content[k]) is None,
    ensures
        content_size(content) is None,
    decreases content.len(),
{
    if k < content.len() - 1 {
        lemma_content_none(content.drop_last(), k);
    }
}

fn height_of_line(content: &Vec<ParaChild>) -> (r: Option<i32>)
    ensures
        r == line_height(content@),
{
    let mut most: u32 = 0;
    let mut i: usize = 0;
    while i < content.len()
        invariant
            i <= content@.len(),
            content_size(content@.take(i as int)) == Some(most),
        decreases content@.len() - i,
    {
        assert(content@.take(i + 1).drop_last() =~= content@.take(i as int));
        let size: Option<u32> = match &content[i] {
            ParaChild::Run(run) => size_of(run),
            ParaChild::Hyperlink { rel: _, anchor: _, runs } => size_of_runs(runs),
            ParaChild::OmmlPara(_) => None,
            _ => Some(0),
        };
        match size {
            Some(n) => {
                if n > most {
                    most = n;
                }
            },
            None => {
                proof {
                    lemma_content_none(content@, i as int);
                }
                return None;
            },
        }
        i = i + 1;
    }
    assert(content@.take(i as int) =~= content@);
    if most > 0 {
        let h: u64 = most as u64 * 10;
        if h > i32::MAX as u64 {
            Some(i32::MAX)
        } else {
            Some(h as i32)
        }
    } else {
        None
    }
}

fn solid_indices(blocks: &Vec<Block>) -> (r: Vec<usize>)
    ensures
        forall|k: int| 0 <= k < r@.len() ==> (#[trigger] r@[k]) < blocks@.len(),
        solid(blocks@) == r@.map_values(|i: usize| blocks@[i as int]),
{
    broadcast use vstd::seq_lib::group_seq_properties;

    let mut out: Vec<usize> = Vec::new();
    let mut i: usize = 0;
    assert(solid(blocks@.take(0)) =~= out@.map_values(|i: usize| blocks@[i as int]));
    while i < blocks.len()
        invariant
            i <= blocks@.len(),
            forall|k: int| 0 <= k < out@.len() ==> (#[trigger] out@[k]) < blocks@.len(),
            solid(blocks@.take(i as int)) == out@.map_values(|i: usize| blocks@[i as int]),
        decreases blocks@.len() - i,
    {
        let ghost before = out@.map_values(|i: usize| blocks@[i as int]);
        assert(blocks@.take(i + 1) =~= blocks@.take(i as int).push(blocks@[i as int]));
        proof {
            lemma_filter_push(blocks@.take(i as int), blocks@[i as int]);
        }
        let tag: bool = match &blocks[i] {
            Block::Tag(_) => true,
            _ => false,
        };
        if !tag {
            out.push(i);
            assert(out@.map_values(|i: usize| blocks@[i as int]) =~= before.push(
                blocks@[i as int],
            ));
        }
        i = i + 1;
    }
    assert(blocks@.take(i as int) =~= blocks@);
    out
}

proof fn lemma_filter_push(s: Seq<Block>, b: Block)
    ensures
        solid(s.push(b)) == (if b is Tag {
            solid(s)
        } else {
            solid(s).push(b)
        }),
{
    reveal(Seq::filter);
    assert(s.push(b).drop_last() =~= s);
}

/// The height of furniture that is one line of text.
pub fn single_line_furniture_height(blocks: &Vec<Block>) -> (r: Option<i32>)
    ensures
        r == single_line(blocks@),
{
    let rest: Vec<usize> = solid_indices(blocks);
    if rest.len() != 1 {
        return None;
    }
    assert(solid(blocks@)[0] == blocks@[rest@[0] as int]);
    match &blocks[rest[0]] {
        Block::Para(para) => height_of_line(&para.content),
        _ => None,
    }
}

/// The sum of the heights of the first `n` rows; `None` where one is not known.
pub open spec fn rows_height(rows: Seq<crate::dom::Row>, n: int) -> Option<i32>
    decreases n,
{
    if n <= 0 {
        Some(0)
    } else {
        match (rows_height(rows, n - 1), rows[n - 1].height) {
            (Some(a), Some(h)) => Some(sat32(a + h.val)),
            _ => None,
        }
    }
}

/// The height of furniture: of one line of text, or of a table with at most one
/// line below it. `None` for any other furniture.
pub open spec fn content_height(blocks: Seq<Block>) -> Option<i32> {
    let rest = solid(blocks);
    if rest.len() == 1 && rest[0] is Para {
        single_line(blocks)
    } else if 1 <= rest.len() <= 2 && rest[0] is Table {
        match rows_height(rest[0]->Table_0.rows@, rest[0]->Table_0.rows@.len() as int) {
            None => None,
            Some(height) => if rest.len() == 2 && rest[1] is Para {
                match line_height(rest[1]->Para_0.content@) {
                    Some(line) => Some(sat32(height + line)),
                    None => Some(height),
                }
            } else {
                Some(height)
            },
        }
    } else {
        None
    }
}

fn height_of_rows(rows: &Vec<crate::dom::Row>) -> (r: Option<i32>)
    ensures
        r == rows_height(rows@, rows@.len() as int),
{
    let mut total: i32 = 0;
    let mut i: usize = 0;
    while i < rows.len()
        invariant
            i <= rows@.len(),
            rows_height(rows@, i as int) == Some(total),
        decreases rows@.len() - i,
    {
        match rows[i].height {
            Some(h) => {
                total = add_sat(total, h.val);
            },
            None => {
                proof {
                    lemma_rows_none(rows@, i as int, rows@.len() as int);
                }
                return None;
            },
        }
        i = i + 1;
    }
    Some(total)
}

proof fn lemma_rows_none(rows: Seq<crate::dom::Row>, k: int, n: int)
    requires
        0 <= k < n <= rows.len(),
        rows[k].height is None,
    ensures
        rows_height(rows, n) is None,
    decreases n,
{
    if k < n - 1 {
        lemma_rows_none(rows, k, n - 1);
    }
}

/// The height of furniture, as far as it can be told from its blocks.
pub fn furniture_content_height(blocks: &Vec<Block>) -> (r: Option<i32>)
    ensures
        r == content_height(blocks@),
{
    let rest: Vec<usize> = solid_indices(blocks);
    let ghost list = solid(blocks@);
    assert(forall|k: int| 0 <= k < list.len() ==> #[trigger] list[k] == blocks@[rest@[k] as int]);
    if rest.len() == 0 || rest.len() > 2 {
        return None;
    }
    match &blocks[rest[0]] {
        Block::Para(_) => if rest.len() == 1 {
            single_line_furniture_height(blocks)
        } else {
            None
        },
        Block::Table(tbl) => {
            let height: i32 = match height_of_rows(&tbl.rows) {
                Some(h) => h,
                None => {
                    return None;
                },
            };
            if rest.len() == 2 {
                if let Block::Para(para) = &blocks[rest[1]] {
                    if let Some(line) = height_of_line(&para.content) {
                        return Some(add_sat(height, line));
                    }
                }
            }
            Some(height)
        },
        _ => None,
    }
}

/// Whether furniture shows nothing.
pub open spec fn shows_nothing(blocks: Seq<Block>) -> bool {
    forall|i: int| 0 <= i < blocks.len() ==> (#[trigger] blocks[i]) is Tag
}

fn furniture_blocks_are_empty(blocks: &Vec<Block>) -> (r: bool)
    ensures
        r == shows_nothing(blocks@),
{
    let mut i: usize = 0;
    while i < blocks.len()
        invariant
            i <= blocks@.len(),
            forall|k: int| 0 <= k < i ==> (#[trigger] blocks@[k]) is Tag,
        decreases blocks@.len() - i,
    {
        let tag: bool = match &blocks[i] {
            Block::Tag(_) => true,
            _ => false,
        };
        if !tag {
            return false;
        }
        i = i + 1;
    }
    true
}

/// Whether every variant among the first `n` that shows something is `height`
/// high.
pub open spec fn all_high(refs: Seq<FurnitureRefPlan>, n: int, height: Option<i32>) -> bool {
    forall|i: int|
        0 <= i < n && !shows_nothing((#[trigger] refs[i]).lowered.blocks@) ==> content_height(
            refs[i].lowered.blocks@,
        ) == height
}

/// The common height of the variants that show something, where they have one.
pub fn uniform_single_line_furniture_height(refs: &Vec<FurnitureRefPlan>) -> (r: Option<i32>)
    ensures
        match r {
            Some(height) => {
                &&& all_high(refs@, refs@.len() as int, Some(height))
                &&& exists|i: int|
                    0 <= i < refs@.len() && !shows_nothing(
                        (#[trigger] refs@[i]).lowered.blocks@,
                    )
            },
            None => forall|height: i32|
                (exists|i: int|
                    0 <= i < refs@.len() && !shows_nothing(
                        (#[trigger] refs@[i]).lowered.blocks@,
                    )) ==> !#[trigger] all_high(refs@, refs@.len() as int, Some(height)),
        },
{
    let mut common: Option<i32> = None;
    let mut at: usize = 0;
    let mut i: usize = 0;
    while i < refs.len()
        invariant
            i <= refs@.len(),
            match common {
                None => forall|k: int|
                    0 <= k < i ==> shows_nothing((#[trigger] refs@[k]).lowered.blocks@),
                Some(h) => {
                    &&& at < i
                    &&& !shows_nothing(refs@[at as int].lowered.blocks@)
                    &&& content_height(refs@[at as int].lowered.blocks@) == Some(h)
                    &&& all_high(refs@, i as int, Some(h))
                },
            },
        decreases refs@.len() - i,
    {
        let blocks: &Vec<Block> = &refs[i].lowered.blocks;
        if !furniture_blocks_are_empty(blocks) {
            let height: Option<i32> = furniture_content_height(blocks);
            assert(content_height(refs@[i as int].lowered.blocks@) == height);
            match (common, height) {
                (None, Some(h)) => {
                    common = Some(h);
                    at = i;
                },
                (Some(c), Some(h)) => {
                    if c != h {
                        assert forall|x: i32| !#[trigger] all_high(
                            refs@,
                            refs@.len() as int,
                            Some(x),
                        ) by {
                            if all_high(refs@, refs@.len() as int, Some(x)) {
                                assert(content_height(refs@[i as int].lowered.blocks@) == Some(x));
                                assert(content_height(refs@[at as int].lowered.blocks@)
                                    == Some(x));
                            }
                        }
                        return None;
                    }
                },
                (_, None) => {
                    assert forall|x: i32| !#[trigger] all_high(
                        refs@,
                        refs@.len() as int,
                        Some(x),
                    ) by {
                        if all_high(refs@, refs@.len() as int, Some(x)) {
                            assert(content_height(refs@[i as int].lowered.blocks@) == Some(x));
                        }
                    }
                    return None;
                },
            }
        }
        i = i + 1;
    }
    common
}

/// The distance of furniture from the page edge: the band's boundary less the
/// height, inside the margin.
pub open spec fn adjusted_band(band: i32, margin: i32, height: i32) -> i32 {
    let most = if margin - 1 < 1 {
        1
    } else {
        margin - 1
    };
    let start = sat32(band - height);
    if start < 1 {
        1
    } else if start > most {
        most as i32
    } else {
        start
    }
}

fn adjust(band: i32, margin: i32, height: i32) -> (r: i32)
    ensures
        r == adjusted_band(band, margin, height),
{
    let most: i64 = if margin as i64 - 1 < 1 {
        1
    } else {
        margin as i64 - 1
    };
    let diff: i64 = band as i64 - height as i64;
    if diff < 1 {
        1
    } else if diff > most {
        most as i32
    } else {
        diff as i32
    }
}

/// Moves the furniture of a slot so that content of the given height ends where
/// the band does.
pub fn adjust_furniture_band(sect: &mut SectPr, slot: FurnitureSlot, height: i32)
    ensures
        *final(sect) == (match slot {
            FurnitureSlot::Header => SectPr {
                header: adjusted_band(old(sect).header, old(sect).margin_top, height),
                ..*old(sect)
            },
            FurnitureSlot::Footer => SectPr {
                footer: adjusted_band(old(sect).footer, old(sect).margin_bottom, height),
                ..*old(sect)
            },
        }),
{
    match slot {
        FurnitureSlot::Header => {
            sect.header = adjust(sect.header, sect.margin_top, height);
        },
        FurnitureSlot::Footer => {
            sect.footer = adjust(sect.footer, sect.margin_bottom, height);
        },
    }
}

} // verus!
