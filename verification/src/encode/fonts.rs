//! Embedded font programs: their parts, and how the font table refers to them.

use vstd::prelude::*;

use crate::dom::{EmbeddedFontProgram, EmbeddedFontStyle};
use crate::ns;
use crate::rels::{Rel, RelMode, RelSpec, Rels, index_id, rel_id};
use crate::text::{concat2, dec, dec_u64};

verus! {

/// A font program as a package holds it: the first 32 bytes are combined with the
/// key, twice over and from its end.
pub open spec fn obfuscated(data: Seq<u8>, key: Seq<u8>) -> Seq<u8> {
    Seq::new(
        data.len(),
        |i: int|
            if i < 32 {
                data[i] ^ key[15 - i % 16]
            } else {
                data[i]
            },
    )
}

/// Obfuscates a font program.
pub fn obfuscate(data: &Vec<u8>, key: &[u8; 16]) -> (r: Vec<u8>)
    ensures
        r@ == obfuscated(data@, key@),
{
    let mut r: Vec<u8> = Vec::new();
    let mut i: usize = 0;
    while i < data.len()
        invariant
            i <= data.len(),
            r@ == obfuscated(data@, key@).take(i as int),
        decreases data.len() - i,
    {
        if i < 32 {
            r.push(data[i] ^ key[15 - i % 16]);
        } else {
            r.push(data[i]);
        }
        i = i + 1;
        assert(obfuscated(data@, key@).take(i as int) =~= obfuscated(data@, key@).take(
            i - 1,
        ).push(obfuscated(data@, key@)[i - 1]));
    }
    assert(obfuscated(data@, key@).take(i as int) =~= obfuscated(data@, key@));
    r
}

/// Obfuscating a font program once more with its key gives the program back.
pub proof fn obfuscation_undoes_itself(data: Seq<u8>, key: Seq<u8>)
    ensures
        obfuscated(obfuscated(data, key), key) == data,
{
    assert forall|x: u8, k: u8| #[trigger] (x ^ k) ^ k == x by {
        assert((x ^ k) ^ k == x) by (bit_vector);
    }
    assert(obfuscated(obfuscated(data, key), key) =~= data);
}

/// Where the font table finds the program at `i`.
pub open spec fn font_target(i: int) -> Seq<char> {
    "fonts/font"@ + dec(i + 1) + ".odttf"@
}

/// Where the font table finds the program at `i`.
pub fn font_file(i: usize) -> (r: String)
    requires
        i < usize::MAX,
    ensures
        r@ == font_target(i as int),
{
    let number: String = dec_u64((i + 1) as u64);
    let name: String = concat2("fonts/font", number.as_str());
    concat2(name.as_str(), ".odttf")
}

/// The font that an embedded program is a style of, and the relationship under
/// which the font table refers to it.
#[derive(Debug)]
pub struct Embedding {
    pub family: String,
    pub style: EmbeddedFontStyle,
    pub rel: String,
}

/// A reference to an embedded program, by value.
pub struct EmbeddingLook {
    pub family: Seq<char>,
    pub style: EmbeddedFontStyle,
    pub rel: Seq<char>,
}

/// References to embedded programs, one by one.
pub open spec fn embedding_looks(s: Seq<Embedding>) -> Seq<EmbeddingLook> {
    s.map_values(|e: Embedding| EmbeddingLook { family: e.family@, style: e.style, rel: e.rel@ })
}

/// The references of the font table to embedded programs.
pub open spec fn embeddings(programs: Seq<EmbeddedFontProgram>) -> Seq<EmbeddingLook> {
    programs.map(
        |i: int, p: EmbeddedFontProgram|
            EmbeddingLook { family: p.family@, style: p.style, rel: rel_id(i) },
    )
}

/// The references of the font table to embedded programs.
pub fn embed_fonts(programs: &Vec<EmbeddedFontProgram>) -> (r: Vec<Embedding>)
    ensures
        embedding_looks(r@) == embeddings(programs@),
{
    let mut r: Vec<Embedding> = Vec::new();
    let mut i: usize = 0;
    assert(embedding_looks(r@) =~= embeddings(programs@).take(0));
    while i < programs.len()
        invariant
            i <= programs.len(),
            embedding_looks(r@) == embeddings(programs@).take(i as int),
        decreases programs.len() - i,
    {
        let p: &EmbeddedFontProgram = &programs[i];
        let ghost before = embedding_looks(r@);
        r.push(Embedding { family: p.family.clone(), style: p.style, rel: index_id(i) });
        i = i + 1;
        assert(embedding_looks(r@) =~= before.push(embeddings(programs@)[i - 1]));
        assert(embeddings(programs@).take(i as int) =~= embeddings(programs@).take(i - 1).push(
            embeddings(programs@)[i - 1],
        ));
    }
    assert(embeddings(programs@).take(i as int) =~= embeddings(programs@));
    r
}

/// The relationships of the font table: one to each embedded program.
pub open spec fn font_rels(n: nat) -> Seq<RelSpec> {
    Seq::new(
        n,
        |i: int|
            RelSpec { ty: ns::REL_FONT@, target: font_target(i), mode: RelMode::Internal },
    )
}

/// The relationships of the font table to `n` embedded programs.
pub fn collect_font_rels(n: usize) -> (r: Rels)
    ensures
        r@ == font_rels(n as nat),
{
    let mut entries: Vec<Rel> = Vec::new();
    let mut i: usize = 0;
    while i < n
        invariant
            i <= n,
            entries@.len() == i,
            forall|k: int|
                0 <= k < i ==> (#[trigger] entries@[k])@ == font_rels(n as nat)[k],
        decreases n - i,
    {
        entries.push(Rel { ty: ns::REL_FONT, target: font_file(i), mode: RelMode::Internal });
        i = i + 1;
    }
    let r: Rels = Rels { entries };
    assert(r@ =~= font_rels(n as nat));
    r
}

} // verus!
