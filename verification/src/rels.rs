//! Relationship tables of package parts.

use vstd::prelude::*;

use crate::text::{concat2, dec, dec_u64, str_eq};

verus! {

/// Whether a relationship targets a part of the package or the outside.
#[derive(Debug, Copy, Clone, PartialEq, Eq, Structural)]
pub enum RelMode {
    Internal,
    External,
}

/// One relationship of a part.
#[derive(Debug, Clone, PartialEq)]
pub struct Rel {
    pub ty: &'static str,
    pub target: String,
    pub mode: RelMode,
}

/// What a relationship says.
pub struct RelSpec {
    pub ty: Seq<char>,
    pub target: Seq<char>,
    pub mode: RelMode,
}

impl View for Rel {
    type V = RelSpec;

    open spec fn view(&self) -> RelSpec {
        RelSpec { ty: self.ty@, target: self.target@, mode: self.mode }
    }
}

/// The relationships of one part, in the order of their identifiers.
#[derive(Debug, Clone, PartialEq)]
pub struct Rels {
    pub entries: Vec<Rel>,
}

impl View for Rels {
    type V = Seq<RelSpec>;

    open spec fn view(&self) -> Seq<RelSpec> {
        self.entries@.map_values(|r: Rel| r@)
    }
}

/// The identifier of the relationship at `index`.
pub open spec fn rel_id(index: int) -> Seq<char> {
    "rId"@ + dec(index + 1)
}

/// The index of the first relationship equal to `rel` from `i` on, or the
/// length.
pub open spec fn rel_index(rels: Seq<RelSpec>, rel: RelSpec, i: int) -> int
    decreases rels.len() - i,
{
    if 0 <= i < rels.len() && rels[i] != rel {
        rel_index(rels, rel, i + 1)
    } else {
        i
    }
}

/// The table after a relationship was asked for: the same one is not added
/// twice.
pub open spec fn with_rel(rels: Seq<RelSpec>, rel: RelSpec) -> Seq<RelSpec> {
    if rel_index(rels, rel, 0) < rels.len() {
        rels
    } else {
        rels.push(rel)
    }
}

/// The identifier of the relationship at `index`.
pub fn index_id(index: usize) -> (r: String)
    requires
        index < usize::MAX,
    ensures
        r@ == rel_id(index as int),
{
    let n: String = dec_u64(index as u64 + 1);
    concat2("rId", n.as_str())
}

impl Rels {
    /// A table without relationships.
    pub fn new() -> (r: Self)
        ensures
            r@.len() == 0,
    {
        Rels { entries: Vec::new() }
    }

    /// Adds a relationship, or reuses an equal one; returns its identifier.
    pub fn add_rel(&mut self, ty: &'static str, target: &str, mode: RelMode) -> (id: String)
        requires
            rel_index(old(self)@, RelSpec { ty: ty@, target: target@, mode }, 0) < old(self)@.len()
                || old(self)@.len() < usize::MAX,
        ensures
            final(self)@ == with_rel(old(self)@, RelSpec { ty: ty@, target: target@, mode }),
            id@ == rel_id(rel_index(old(self)@, RelSpec { ty: ty@, target: target@, mode }, 0)),
    {
        let ghost rel = RelSpec { ty: ty@, target: target@, mode };
        let mut i: usize = 0;
        while i < self.entries.len()
            invariant
                i <= self.entries.len(),
                rel_index(self@, rel, 0) < self@.len() || self@.len() < usize::MAX,
                rel == (RelSpec { ty: ty@, target: target@, mode }),
                *self == *old(self),
                rel_index(self@, rel, 0) == rel_index(self@, rel, i as int),
            decreases self.entries.len() - i,
        {
            let e: &Rel = &self.entries[i];
            assert(self@[i as int] == e@);
            if str_eq(e.ty, ty) && str_eq(e.target.as_str(), target) && e.mode == mode {
                return index_id(i);
            }
            i = i + 1;
        }
        assert(self@.len() == self.entries@.len());
        self.entries.push(Rel { ty, target: target.to_owned(), mode });
        assert(self@ =~= old(self)@.push(rel));
        index_id(i)
    }

    /// A mark that [`Rels::rollback`] returns to.
    pub fn savepoint(&self) -> (r: usize)
        ensures
            r == self@.len(),
    {
        self.entries.len()
    }

    /// Drops every relationship added since the mark.
    pub fn rollback(&mut self, savepoint: usize)
        requires
            savepoint <= old(self)@.len(),
        ensures
            final(self)@ == old(self)@.take(savepoint as int),
    {
        self.entries.truncate(savepoint);
        assert(self@ =~= old(self)@.take(savepoint as int));
    }
}

proof fn lemma_rel_index(rels: Seq<RelSpec>, rel: RelSpec, i: int)
    requires
        0 <= i <= rels.len(),
    ensures
        i <= rel_index(rels, rel, i) <= rels.len(),
        rel_index(rels, rel, i) < rels.len() ==> rels[rel_index(rels, rel, i)] == rel,
        forall|k: int| i <= k < rel_index(rels, rel, i) ==> (#[trigger] rels[k]) != rel,
    decreases rels.len() - i,
{
    if i < rels.len() && rels[i] != rel {
        lemma_rel_index(rels, rel, i + 1);
    }
}

/// An identifier that was handed out stands for the relationship that was asked
/// for: the table holds it at the identifier's index, and adding further
/// relationships leaves it there.
pub proof fn identifier_resolves(rels: Seq<RelSpec>, rel: RelSpec, later: RelSpec)
    ensures
        ({
            let index = rel_index(rels, rel, 0);
            let after = with_rel(rels, rel);
            &&& 0 <= index < after.len()
            &&& after[index] == rel
            &&& index < with_rel(after, later).len()
            &&& with_rel(after, later)[index] == rel
        }),
{
    lemma_rel_index(rels, rel, 0);
}

/// Rolling back to a mark undoes every relationship added since.
pub proof fn rollback_undoes(rels: Seq<RelSpec>, rel: RelSpec)
    ensures
        with_rel(rels, rel).take(rels.len() as int) == rels,
{
    assert(with_rel(rels, rel).take(rels.len() as int) =~= rels);
}

} // verus!
