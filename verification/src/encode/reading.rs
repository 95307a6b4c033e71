//! Reading markup back.

use vstd::prelude::*;

use crate::xml::{El, OwedXml, Xml, el};

verus! {

/// The first element of the given name among nodes.
pub open spec fn first_named(nodes: Seq<Xml>, name: Seq<char>) -> Option<El>
    decreases nodes.len(),
{
    if nodes.len() == 0 {
        None
    } else {
        match first_named(nodes.drop_last(), name) {
            Some(e) => Some(e),
            None => match nodes.last() {
                Xml::El(e) => if e.name == name {
                    Some(e)
                } else {
                    None
                },
                _ => None,
            },
        }
    }
}

/// The first attribute of the given name.
pub open spec fn first_value(
    attrs: Seq<(Seq<char>, Seq<char>)>,
    name: Seq<char>,
) -> Option<Seq<char>>
    decreases attrs.len(),
{
    if attrs.len() == 0 {
        None
    } else {
        match first_value(attrs.drop_last(), name) {
            Some(v) => Some(v),
            None => if attrs.last().0 == name {
                Some(attrs.last().1)
            } else {
                None
            },
        }
    }
}

/// The first child element of the given name.
pub open spec fn part(e: El, name: Seq<char>) -> Option<El> {
    first_named(e.children, name)
}

/// What an element's attribute says.
pub open spec fn says(e: El, name: Seq<char>) -> Option<Seq<char>> {
    first_value(e.attrs, name)
}

/// What an attribute of the first child element of the given name says.
pub open spec fn part_says(e: El, name: Seq<char>, attr: Seq<char>) -> Option<Seq<char>> {
    match part(e, name) {
        Some(p) => says(p, attr),
        None => None,
    }
}

pub broadcast proof fn part_of_empty(name: Seq<char>, n: Seq<char>)
    ensures
        #[trigger] part(el(name), n) is None,
{
}

pub broadcast proof fn part_of_elem(e: El, x: El, n: Seq<char>)
    ensures
        #[trigger] part(e.elem(x), n) == (if part(e, n) is Some {
            part(e, n)
        } else if x.name == n {
            Some(x)
        } else {
            None
        }),
{
    assert(e.elem(x).children.drop_last() =~= e.children);
}

pub broadcast proof fn part_of_attr(e: El, a: Seq<char>, v: Seq<char>, n: Seq<char>)
    ensures
        #[trigger] part(e.attr(a, v), n) == part(e, n),
{
}

pub broadcast proof fn part_of_text(e: El, t: Seq<char>, n: Seq<char>)
    ensures
        #[trigger] part(e.text(t), n) == part(e, n),
{
    assert(e.text(t).children.drop_last() =~= e.children);
}

pub broadcast proof fn part_of_owed(e: El, o: OwedXml, n: Seq<char>)
    ensures
        #[trigger] part(e.owed(o), n) == part(e, n),
{
    assert(e.owed(o).children.drop_last() =~= e.children);
}

pub broadcast proof fn part_of_all(e: El, nodes: Seq<Xml>, n: Seq<char>)
    ensures
        #[trigger] part(e.all(nodes), n) == (if part(e, n) is Some {
            part(e, n)
        } else {
            first_named(nodes, n)
        }),
{
    lemma_first_named_add(e.children, nodes, n);
}

pub broadcast proof fn says_of_empty(name: Seq<char>, n: Seq<char>)
    ensures
        #[trigger] says(el(name), n) is None,
{
}

pub broadcast proof fn says_of_attr(e: El, a: Seq<char>, v: Seq<char>, n: Seq<char>)
    ensures
        #[trigger] says(e.attr(a, v), n) == (if says(e, n) is Some {
            says(e, n)
        } else if a == n {
            Some(v)
        } else {
            None
        }),
{
    assert(e.attr(a, v).attrs.drop_last() =~= e.attrs);
}

pub broadcast proof fn says_of_elem(e: El, x: El, n: Seq<char>)
    ensures
        #[trigger] says(e.elem(x), n) == says(e, n),
{
}

pub broadcast proof fn says_of_text(e: El, t: Seq<char>, n: Seq<char>)
    ensures
        #[trigger] says(e.text(t), n) == says(e, n),
{
}

pub broadcast proof fn says_of_owed(e: El, o: OwedXml, n: Seq<char>)
    ensures
        #[trigger] says(e.owed(o), n) == says(e, n),
{
}

pub broadcast proof fn says_of_all(e: El, nodes: Seq<Xml>, n: Seq<char>)
    ensures
        #[trigger] says(e.all(nodes), n) == says(e, n),
{
}

pub broadcast group reading {
    part_of_empty,
    part_of_elem,
    part_of_attr,
    part_of_text,
    part_of_owed,
    part_of_all,
    says_of_empty,
    says_of_attr,
    says_of_elem,
    says_of_text,
    says_of_owed,
    says_of_all,
}

/// An element that stands at the end of more nodes is found there unless one of
/// its name stands before.
pub proof fn lemma_first_named_add(a: Seq<Xml>, b: Seq<Xml>, name: Seq<char>)
    ensures
        first_named(a + b, name) == (if first_named(a, name) is Some {
            first_named(a, name)
        } else {
            first_named(b, name)
        }),
    decreases b.len(),
{
    if b.len() == 0 {
        assert(a + b =~= a);
    } else {
        lemma_first_named_add(a, b.drop_last(), name);
        assert((a + b).drop_last() =~= a + b.drop_last());
        assert((a + b).last() == b.last());
    }
}

} // verus!
