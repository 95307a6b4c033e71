//! What headers and footers are made of, and what is reported about them.

use vstd::prelude::*;

use crate::content::{Class, Content, content_text_chars, holds_class, preorder, text_chars_in};
use crate::convert::predicates::contains_context;
use crate::document::furniture::{FurnitureSlot, LoweredFurniture};
use crate::document::signature::{furniture_signature, sig_blocks_text};
use crate::dom::{Block, Span};
use crate::rels::Rels;
use crate::report::{Decision, DecisionReason, LossSet, Representation};

verus! {

/// The contents that page furniture is made of.
#[derive(Debug, Copy, Clone)]
pub struct FurnitureSource<'a> {
    pub content: Option<&'a Content>,
    pub background: Option<&'a Content>,
    pub foreground: Option<&'a Content>,
}

/// A content, where it is there and depends on its context.
pub open spec fn if_contextual(c: Option<&Content>) -> Seq<Content> {
    match c {
        Some(content) => if holds_class(*content, Class::Context) {
            seq![*content]
        } else {
            seq![]
        },
        None => seq![],
    }
}

/// The contents of furniture that depend on their context.
pub open spec fn contextual(source: FurnitureSource) -> Seq<Content> {
    if_contextual(source.content) + if_contextual(source.background) + if_contextual(
        source.foreground,
    )
}

fn push_contextual<'a>(c: Option<&'a Content>, out: &mut Vec<&'a Content>)
    ensures
        contents(final(out)@) == contents(old(out)@) + if_contextual(c),
{
    let ghost before = contents(out@);
    if let Some(content) = c {
        if contains_context(content) {
            out.push(content);
            assert(contents(out@) =~= before.push(*content));
        }
    }
    assert(contents(out@) =~= before + if_contextual(c));
}

/// The contents that references refer to.
pub open spec fn contents(s: Seq<&Content>) -> Seq<Content> {
    s.map_values(|c: &Content| *c)
}

impl<'a> FurnitureSource<'a> {
    fn contextual(&self) -> (r: Vec<&'a Content>)
        ensures
            contents(r@) == contextual(*self),
    {
        let mut out: Vec<&'a Content> = Vec::new();
        assert(contents(out@) =~= Seq::<Content>::empty());
        push_contextual(self.content, &mut out);
        push_contextual(self.background, &mut out);
        push_contextual(self.foreground, &mut out);
        assert(contents(out@) =~= contextual(*self));
        out
    }

    /// Whether the furniture may differ between pages.
    pub fn context_sensitive(&self) -> (r: bool)
        ensures
            r == (contextual(*self).len() > 0),
    {
        let all: Vec<&'a Content> = self.contextual();
        assert(contents(all@).len() == all@.len());
        all.len() > 0
    }
}

/// How many characters each source of sampled furniture answers for: its own
/// where it has text, else what is left of the sample's.
pub open spec fn attributed(sources: Seq<u128>, sampled: u128, n: int) -> (Seq<u128>, u128)
    decreases n,
{
    if n <= 0 {
        (seq![], sampled)
    } else {
        let (out, left) = attributed(sources, sampled, n - 1);
        if sources[n - 1] == 0 {
            (out.push(left), 0)
        } else {
            (
                out.push(sources[n - 1]),
                if left > sources[n - 1] {
                    (left - sources[n - 1]) as u128
                } else {
                    0
                },
            )
        }
    }
}

/// Distributes the characters of sampled furniture over its sources, each given
/// by the number of characters it has itself.
pub fn attribute_sampled_chars(sources: &Vec<u128>, sampled: u128) -> (r: Vec<u128>)
    ensures
        r@ == attributed(sources@, sampled, sources@.len() as int).0,
{
    let mut out: Vec<u128> = Vec::new();
    let mut left: u128 = sampled;
    let mut i: usize = 0;
    while i < sources.len()
        invariant
            i <= sources@.len(),
            attributed(sources@, sampled, i as int) == (out@, left),
        decreases sources@.len() - i,
    {
        let own: u128 = sources[i];
        if own == 0 {
            out.push(left);
            left = 0;
        } else {
            out.push(own);
            left = if left > own {
                left - own
            } else {
                0
            };
        }
        i = i + 1;
    }
    out
}

/// A number of characters as a report states it.
pub open spec fn reported_chars(n: u128) -> usize {
    if n > usize::MAX {
        usize::MAX
    } else {
        n as usize
    }
}

/// What is reported about sampled furniture.
#[derive(Debug)]
pub struct SampledReport {
    /// One choice for every content that depends on its context.
    pub decisions: Vec<Decision>,
    /// Where the warning points, and what it calls the furniture.
    pub warning: Option<(Span, &'static str)>,
}

/// The choice reported about a content of sampled furniture.
pub open spec fn sampled_decision(chars: u128) -> Decision {
    Decision {
        representation: Representation::Approximate,
        reason: DecisionReason::PageFurnitureSampled,
        losses: LossSet::PageFurnitureSampled,
        affected_text_chars: reported_chars(chars),
    }
}

/// The name of a slot in a warning.
pub open spec fn slot_name(slot: FurnitureSlot) -> Seq<char> {
    match slot {
        FurnitureSlot::Header => "header"@,
        FurnitureSlot::Footer => "footer"@,
    }
}

fn count_all(all: &Vec<&Content>) -> (r: Vec<u128>)
    ensures
        r@ == contents(all@).map_values(|c: Content| text_chars_in(preorder(c)) as u128),
{
    let mut out: Vec<u128> = Vec::new();
    let mut i: usize = 0;
    while i < all.len()
        invariant
            i <= all.len(),
            out@.len() == i,
            forall|k: int|
                0 <= k < i ==> #[trigger] out@[k] == text_chars_in(preorder(*all@[k])) as u128,
        decreases all.len() - i,
    {
        out.push(content_text_chars(all[i]));
        i = i + 1;
    }
    out
}

/// Reports furniture that varies more than a document can express, so that its
/// first page stands for all of them. `sampled` is the number of characters that
/// the sample shows.
pub fn record_sampled_furniture(slot: FurnitureSlot, source: &FurnitureSource, sampled: u128) -> (r:
    SampledReport)
    ensures
        ({
            let all = contextual(*source);
            let own = all.map_values(|c: Content| text_chars_in(preorder(c)) as u128);
            &&& r.decisions@ == attributed(own, sampled, own.len() as int).0.map_values(
                |n: u128| sampled_decision(n),
            )
            &&& match r.warning {
                Some((span, name)) => all.len() > 0 && span == all[0].span && name@ == slot_name(
                    slot,
                ),
                None => all.len() == 0,
            }
        }),
{
    let all: Vec<&Content> = source.contextual();
    let own: Vec<u128> = count_all(&all);
    let chars: Vec<u128> = attribute_sampled_chars(&own, sampled);
    let mut decisions: Vec<Decision> = Vec::new();
    let mut i: usize = 0;
    while i < chars.len()
        invariant
            i <= chars.len(),
            decisions@.len() == i,
            forall|k: int| 0 <= k < i ==> #[trigger] decisions@[k] == sampled_decision(chars@[k]),
        decreases chars.len() - i,
    {
        let n: u128 = chars[i];
        let affected: usize = if n > usize::MAX as u128 {
            usize::MAX
        } else {
            n as usize
        };
        decisions.push(
            Decision {
                representation: Representation::Approximate,
                reason: DecisionReason::PageFurnitureSampled,
                losses: LossSet::PageFurnitureSampled,
                affected_text_chars: affected,
            },
        );
        i = i + 1;
    }
    assert(contents(all@).len() == all@.len());
    let warning: Option<(Span, &'static str)> = if all.len() > 0 {
        assert(contents(all@)[0] == *all@[0]);
        let name: &'static str = match slot {
            FurnitureSlot::Header => "header",
            FurnitureSlot::Footer => "footer",
        };
        Some((all[0].span, name))
    } else {
        None
    };
    SampledReport { decisions, warning }
}

/// Furniture lowered for one page: what it shows is told from its blocks, and
/// furniture with content of its own stands even where that content is empty on
/// the page.
pub fn lowered_furniture(blocks: Vec<Block>, rels: Rels, source: &FurnitureSource) -> (r:
    LoweredFurniture)
    ensures
        r.blocks == blocks,
        r.rels == rels,
        r.signature@ == sig_blocks_text(Seq::empty(), blocks@),
        r.emit_empty == (source.content is Some),
{
    let signature: String = furniture_signature(&blocks);
    LoweredFurniture { blocks, rels, signature, emit_empty: source.content.is_some() }
}

} // verus!
