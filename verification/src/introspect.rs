//! Introspection of an exported document.
//!
//! A flowing document has no pages when it is exported. Questions about positions
//! and pages are answered from the paged layout where it knows the location, and
//! else from a model that counts explicit page and section breaks.

use vstd::prelude::*;

use rustc_hash::{FxHashMap, FxHashSet};

use crate::document::geometry::NumberingId;
use crate::dom::Location;
use crate::fxmap::{fx_get, fx_insert, fx_new, fx_set_contains};

verus! {

/// What the paged layout knows of the end of a located element.
#[derive(Debug, Copy, Clone)]
pub struct EndFact {
    pub location: Location,
    /// Whether the element can be queried.
    pub introspectable: bool,
    /// Whether the paged layout knows a position of the location.
    pub positioned: bool,
    /// An equivalent location in the paged layout, and whether that has a
    /// position.
    pub equivalent: Option<(Location, bool)>,
}

/// Whether positions are known of a location: in the paged layout, where there is
/// one, and among the exported elements.
#[derive(Debug, Copy, Clone, PartialEq, Eq, Structural)]
pub struct Known {
    pub paged: bool,
    pub element: bool,
}

/// The introspector of an exported document.
pub struct DocxIntrospector {
    /// Whether there is a paged layout.
    pub layered: bool,
    /// Equivalent locations in the paged layout, for those of page furniture,
    /// which stands in the document once but on every page of the layout.
    pub real_aliases: FxHashMap<u128, u128>,
    /// The bookmark names of locations.
    pub anchors: FxHashMap<u128, String>,
    /// The page and the section of every tagged location: the page is one more
    /// than the number of explicit breaks before it.
    pub page_model: FxHashMap<u128, (usize, usize)>,
    /// The number of pages in the model.
    pub total_pages: usize,
    /// The page numbering of every section.
    pub section_numberings: Vec<Option<NumberingId>>,
    /// The page that unknown locations report while page furniture is lowered.
    pub furniture_page: Option<usize>,
}

/// Whether the end of an element gets an equivalent location: page furniture that
/// the paged layout knows under another location only.
pub open spec fn aliased(layered: bool, candidates: Set<u128>, fact: EndFact) -> bool {
    &&& layered
    &&& fact.introspectable
    &&& candidates.contains(fact.location.0)
    &&& !fact.positioned
    &&& fact.equivalent matches Some((_, positioned)) && positioned
}

/// The equivalent locations after the ends of elements.
pub open spec fn aliases_of(layered: bool, candidates: Set<u128>, facts: Seq<EndFact>) -> Map<
    u128,
    u128,
>
    decreases facts.len(),
{
    if facts.len() == 0 {
        Map::empty()
    } else {
        let before = aliases_of(layered, candidates, facts.drop_last());
        let fact = facts.last();
        if aliased(layered, candidates, fact) {
            before.insert(fact.location.0, fact.equivalent.unwrap().0.0)
        } else {
            before
        }
    }
}

/// The larger of two numbers.
pub open spec fn at_least(n: usize, low: usize) -> usize {
    if n < low {
        low
    } else {
        n
    }
}

/// Where the number of elements before a location is counted.
#[derive(Debug, Copy, Clone, PartialEq, Eq, Structural)]
pub enum CountRoute {
    /// Among the elements up to a page.
    UpToPage(usize),
    /// In the paged layout, before a location of it.
    Real(Location),
    /// Among the exported elements.
    Elements,
}

/// What a position is taken from.
#[derive(Debug, Copy, Clone, PartialEq, Eq, Structural)]
pub enum PositionRoute {
    /// The start of a page.
    Page(usize),
    /// The paged layout, at a location of it.
    Real(Location),
    /// The exported elements.
    Elements,
}

impl DocxIntrospector {
    /// An introspector over the exported elements and, where `layered`, a paged
    /// layout. The candidates are the locations of page furniture.
    pub fn new(layered: bool, facts: &Vec<EndFact>, candidates: &FxHashSet<u128>) -> (r: Self)
        ensures
            r.layered == layered,
            r.real_aliases@ == aliases_of(layered, candidates@, facts@),
            r.anchors@ == Map::<u128, String>::empty(),
            r.page_model@ == Map::<u128, (usize, usize)>::empty(),
            r.total_pages == 1,
            r.section_numberings@.len() == 0,
            r.furniture_page is None,
    {
        let mut real_aliases: FxHashMap<u128, u128> = fx_new();
        let mut i: usize = 0;
        while i < facts.len()
            invariant
                i <= facts.len(),
                real_aliases@ == aliases_of(layered, candidates@, facts@.take(i as int)),
            decreases facts.len() - i,
        {
            assert(facts@.take(i + 1).drop_last() =~= facts@.take(i as int));
            let fact: &EndFact = &facts[i];
            if layered && fact.introspectable && fx_set_contains(candidates, fact.location.0)
                && !fact.positioned {
                if let Some((location, positioned)) = fact.equivalent {
                    if positioned {
                        fx_insert(&mut real_aliases, fact.location.0, location.0);
                    }
                }
            }
            i = i + 1;
        }
        assert(facts@.take(i as int) =~= facts@);
        DocxIntrospector {
            layered,
            real_aliases,
            anchors: fx_new(),
            page_model: fx_new(),
            total_pages: 1,
            section_numberings: Vec::new(),
            furniture_page: None,
        }
    }

    /// Installs the bookmark names, which are known late.
    pub fn set_anchors(&mut self, anchors: FxHashMap<u128, String>)
        ensures
            *final(self) == (DocxIntrospector { anchors, ..*old(self) }),
    {
        self.anchors = anchors;
    }

    /// Installs the page model. There is always a page.
    pub fn set_page_model(
        &mut self,
        page_model: FxHashMap<u128, (usize, usize)>,
        total_pages: usize,
        section_numberings: Vec<Option<NumberingId>>,
    )
        ensures
            *final(self) == (DocxIntrospector {
                page_model,
                total_pages: at_least(total_pages, 1),
                section_numberings,
                ..*old(self)
            }),
    {
        self.page_model = page_model;
        self.total_pages = if total_pages < 1 {
            1
        } else {
            total_pages
        };
        self.section_numberings = section_numberings;
    }

    /// Makes unknown locations report a page, and returns what they reported
    /// before.
    pub fn start_furniture_page(&mut self, page: usize) -> (previous: Option<usize>)
        ensures
            previous == old(self).furniture_page,
            *final(self) == (DocxIntrospector { furniture_page: Some(page), ..*old(self) }),
    {
        let previous: Option<usize> = self.furniture_page;
        self.furniture_page = Some(page);
        previous
    }

    /// Makes unknown locations report what they reported before.
    pub fn end_furniture_page(&mut self, previous: Option<usize>)
        ensures
            *final(self) == (DocxIntrospector { furniture_page: previous, ..*old(self) }),
    {
        self.furniture_page = previous;
    }

    /// The location in the paged layout that a location stands for: itself where
    /// the layout knows it, and else its equivalent.
    pub open spec fn real_of(self, location: Location, known: Known) -> Option<Location> {
        if !self.layered {
            None
        } else if known.paged {
            Some(location)
        } else if self.real_aliases@.contains_key(location.0) {
            Some(Location(self.real_aliases@[location.0]))
        } else {
            None
        }
    }

    /// The location in the paged layout that a location stands for.
    pub fn real_location(&self, location: Location, known: Known) -> (r: Option<Location>)
        ensures
            r == self.real_of(location, known),
    {
        if !self.layered {
            return None;
        }
        if known.paged {
            return Some(location);
        }
        match fx_get(&self.real_aliases, location.0) {
            Some(paged) => Some(Location(*paged)),
            None => None,
        }
    }

    /// The page that page furniture being lowered reports for a location that is
    /// not known: not in the paged layout, or, without one, not among the
    /// elements.
    pub open spec fn furniture_page_of(self, known: Known) -> Option<usize> {
        if (self.layered && !known.paged) || (!self.layered && !known.element) {
            self.furniture_page
        } else {
            None
        }
    }

    /// The page that page furniture being lowered reports for a location that is
    /// not known.
    pub fn furniture_page_override(&self, known: Known) -> (r: Option<usize>)
        ensures
            r == self.furniture_page_of(known),
    {
        if (self.layered && !known.paged) || (!self.layered && !known.element) {
            self.furniture_page
        } else {
            None
        }
    }

    /// The page that the model has for a location. Those outside the model come
    /// after the body, so the last page is the best guess.
    pub open spec fn modelled_page(self, location: Location) -> usize {
        at_least(
            if self.page_model@.contains_key(location.0) {
                self.page_model@[location.0].0
            } else {
                self.total_pages
            },
            1,
        )
    }

    /// The page of a location, given the page in the paged layout of the location
    /// it stands for.
    pub open spec fn page_of(
        self,
        location: Location,
        known: Known,
        real_page: Option<usize>,
    ) -> usize {
        match self.furniture_page_of(known) {
            Some(page) => page,
            None => if self.real_of(location, known) is Some && real_page is Some {
                real_page.unwrap()
            } else {
                self.modelled_page(location)
            },
        }
    }

    /// The page of a location. There always is one.
    pub fn page(&self, location: Location, known: Known, real_page: Option<usize>) -> (r: usize)
        ensures
            r == self.page_of(location, known, real_page),
    {
        if let Some(page) = self.furniture_page_override(known) {
            return page;
        }
        if self.real_location(location, known).is_some() {
            if let Some(page) = real_page {
                return page;
            }
        }
        let page: usize = match fx_get(&self.page_model, location.0) {
            Some(at) => at.0,
            None => self.total_pages,
        };
        if page < 1 {
            1
        } else {
            page
        }
    }

    /// The number of pages, given what the paged layout answers.
    pub fn pages(&self, paged: Option<usize>) -> (r: Option<usize>)
        ensures
            r == (if self.layered && paged is Some {
                paged
            } else if self.total_pages > 0 {
                Some(self.total_pages)
            } else {
                None
            }),
    {
        if self.layered {
            if let Some(pages) = paged {
                return Some(pages);
            }
        }
        if self.total_pages > 0 {
            Some(self.total_pages)
        } else {
            None
        }
    }

    /// What the position of a location is taken from; `real_known` tells whether
    /// the paged layout knows the location it stands for.
    pub fn position(&self, location: Location, known: Known, real_known: bool) -> (r:
        PositionRoute)
        ensures
            r == (match self.furniture_page_of(known) {
                Some(page) => PositionRoute::Page(page),
                None => match self.real_of(location, known) {
                    Some(paged) if real_known => PositionRoute::Real(paged),
                    _ => PositionRoute::Elements,
                },
            }),
    {
        if let Some(page) = self.furniture_page_override(known) {
            return PositionRoute::Page(page);
        }
        match self.real_location(location, known) {
            Some(paged) => {
                if real_known {
                    PositionRoute::Real(paged)
                } else {
                    PositionRoute::Elements
                }
            }
            None => PositionRoute::Elements,
        }
    }

    /// The page numbering of the section of a location. A location outside the
    /// model takes that of the first numbered section.
    pub open spec fn modelled_numbering(self, location: Location) -> Option<NumberingId> {
        if self.page_model@.contains_key(location.0) {
            let section = self.page_model@[location.0].1;
            if section < self.section_numberings@.len() {
                self.section_numberings@[section as int]
            } else {
                None
            }
        } else {
            first_numbering(self.section_numberings@, 0)
        }
    }

    /// The page numbering at a location, given that of the location it stands for
    /// in the paged layout.
    pub fn page_numbering(
        &self,
        location: Location,
        known: Known,
        paged: Option<NumberingId>,
    ) -> (r: Option<NumberingId>)
        ensures
            r == (if self.real_of(location, known) is Some && paged is Some {
                paged
            } else {
                self.modelled_numbering(location)
            }),
    {
        if self.real_location(location, known).is_some() {
            if let Some(numbering) = paged {
                return Some(numbering);
            }
        }
        match fx_get(&self.page_model, location.0) {
            Some(at) => {
                if at.1 < self.section_numberings.len() {
                    self.section_numberings[at.1]
                } else {
                    None
                }
            }
            None => find_numbering(&self.section_numberings),
        }
    }

    /// The anchor of a location: its bookmark name, and else what the paged layout
    /// answers.
    pub fn anchor<'a>(&'a self, location: Location, paged: Option<&'a str>) -> (r: Option<&'a str>)
        ensures
            if self.anchors@.contains_key(location.0) {
                r matches Some(name) && name@ == self.anchors@[location.0]@
            } else if self.layered {
                r == paged
            } else {
                r is None
            },
    {
        match fx_get(&self.anchors, location.0) {
            Some(name) => Some(name.as_str()),
            None => {
                if self.layered {
                    paged
                } else {
                    None
                }
            }
        }
    }

    /// Where the number of matches before a location is counted, so that it agrees
    /// with what a query returns: `matched` tells whether the paged layout has any
    /// match, and `real_page` is the page of the location it stands for there.
    pub fn query_count_before(
        &self,
        end: Location,
        known: Known,
        real_page: Option<usize>,
        matched: bool,
    ) -> (r: CountRoute)
        ensures
            r == (match self.furniture_page_of(known) {
                Some(page) => CountRoute::UpToPage(page),
                None => match self.real_of(end, known) {
                    Some(paged) => CountRoute::Real(paged),
                    None => if self.layered && matched {
                        CountRoute::UpToPage(self.page_of(end, known, real_page))
                    } else {
                        CountRoute::Elements
                    },
                },
            }),
    {
        if let Some(page) = self.furniture_page_override(known) {
            return CountRoute::UpToPage(page);
        }
        if let Some(paged) = self.real_location(end, known) {
            return CountRoute::Real(paged);
        }
        if self.layered && matched {
            return CountRoute::UpToPage(self.page(end, known, real_page));
        }
        CountRoute::Elements
    }

    /// Whether the answer of the paged layout is used: where there is one and it
    /// is not empty.
    pub fn prefers_real(&self, empty: bool) -> (r: bool)
        ensures
            r == (self.layered && !empty),
    {
        self.layered && !empty
    }

    /// The number of elements with a label: what the paged layout counts, unless
    /// it counts none.
    pub fn label_count(&self, paged: usize, elements: usize) -> (r: usize)
        ensures
            r == (if self.layered && paged > 0 {
                paged
            } else {
                elements
            }),
    {
        if self.layered && paged > 0 {
            paged
        } else {
            elements
        }
    }

    /// An answer of the paged layout, and else that of the exported elements.
    pub fn layered_answer<T>(&self, paged: Option<T>, elements: Option<T>) -> (r: Option<T>)
        ensures
            r == (if self.layered && paged is Some {
                paged
            } else {
                elements
            }),
    {
        if self.layered && paged.is_some() {
            paged
        } else {
            elements
        }
    }

    /// An answer that only the paged layout can give, about the location that a
    /// location stands for there.
    pub fn real_answer<T>(&self, location: Location, known: Known, paged: Option<T>) -> (r: Option<
        T,
    >)
        ensures
            r == (if self.real_of(location, known) is Some {
                paged
            } else {
                None
            }),
    {
        if self.real_location(location, known).is_some() {
            paged
        } else {
            None
        }
    }
}

/// The first page numbering from `i` on.
pub open spec fn first_numbering(s: Seq<Option<NumberingId>>, i: int) -> Option<NumberingId>
    decreases s.len() - i,
{
    if 0 <= i < s.len() {
        if s[i] is Some {
            s[i]
        } else {
            first_numbering(s, i + 1)
        }
    } else {
        None
    }
}

fn find_numbering(s: &Vec<Option<NumberingId>>) -> (r: Option<NumberingId>)
    ensures
        r == first_numbering(s@, 0),
{
    let mut i: usize = 0;
    while i < s.len()
        invariant
            i <= s.len(),
            first_numbering(s@, 0) == first_numbering(s@, i as int),
        decreases s.len() - i,
    {
        if s[i].is_some() {
            return s[i];
        }
        i = i + 1;
    }
    None
}

/// The number of elements that are on a page or before it, among the pages of
/// matches. One without a page counts.
pub open spec fn up_to_page(pages: Seq<Option<usize>>, page: usize) -> nat
    decreases pages.len(),
{
    if pages.len() == 0 {
        0
    } else {
        up_to_page(pages.drop_last(), page) + (if pages.last() matches Some(p) && p > page {
            0nat
        } else {
            1nat
        })
    }
}

/// Counts the matches that are on a page or before it.
pub fn count_matching_up_to_page(pages: &Vec<Option<usize>>, page: usize) -> (r: usize)
    ensures
        r == up_to_page(pages@, page),
        r <= pages@.len(),
{
    let mut n: usize = 0;
    let mut i: usize = 0;
    while i < pages.len()
        invariant
            i <= pages.len(),
            n <= i,
            n == up_to_page(pages@.take(i as int), page),
        decreases pages.len() - i,
    {
        assert(pages@.take(i + 1).drop_last() =~= pages@.take(i as int));
        let counts: bool = match pages[i] {
            Some(p) => p <= page,
            None => true,
        };
        if counts {
            n = n + 1;
        }
        i = i + 1;
    }
    assert(pages@.take(i as int) =~= pages@);
    n
}

/// Which side of page furniture a query asks for.
#[derive(Debug, Copy, Clone, PartialEq, Eq, Structural)]
pub enum Side {
    Before,
    After,
}

/// Whether a match is on the side of a page that a query asks for.
pub open spec fn on_side(at: Option<usize>, page: usize, side: Side, inclusive: bool) -> bool {
    match at {
        Some(p) => (inclusive && p == page) || (side == Side::Before && p < page) || (side
            == Side::After && p > page),
        None => false,
    }
}

/// Which matches a query before or after page furniture keeps. A match without a
/// page is dropped.
pub fn furniture_matches(
    pages: &Vec<Option<usize>>,
    page: usize,
    side: Side,
    inclusive: bool,
) -> (r: Vec<bool>)
    ensures
        r@ == pages@.map_values(|at: Option<usize>| on_side(at, page, side, inclusive)),
{
    let mut r: Vec<bool> = Vec::new();
    let mut i: usize = 0;
    while i < pages.len()
        invariant
            i <= pages.len(),
            r@.len() == i,
            forall|k: int|
                0 <= k < i ==> #[trigger] r@[k] == on_side(pages@[k], page, side, inclusive),
        decreases pages.len() - i,
    {
        let keep: bool = match pages[i] {
            Some(p) => (inclusive && p == page) || match side {
                Side::Before => p < page,
                Side::After => p > page,
            },
            None => false,
        };
        r.push(keep);
        i = i + 1;
    }
    assert(r@ =~= pages@.map_values(|at: Option<usize>| on_side(at, page, side, inclusive)));
    r
}

/// A location always has a page: one of the model unless the paged layout or the
/// furniture being lowered supplies one.
pub proof fn every_location_has_a_page(
    i: DocxIntrospector,
    location: Location,
    known: Known,
    real_page: Option<usize>,
)
    requires
        i.furniture_page matches Some(page) ==> page > 0,
        real_page matches Some(page) ==> page > 0,
    ensures
        i.page_of(location, known, real_page) > 0,
{
}

/// What the paged layout knows is never overridden: neither the page of furniture
/// being lowered nor the model replaces its answer.
pub proof fn paged_answers_win(
    i: DocxIntrospector,
    location: Location,
    page: usize,
)
    requires
        i.layered,
    ensures
        i.page_of(location, Known { paged: true, element: true }, Some(page)) == page,
        i.page_of(location, Known { paged: true, element: false }, Some(page)) == page,
{
}

/// A count of matches up to a page never exceeds the number of matches, so it
/// never points behind the end of what a query returned.
pub proof fn counts_stay_within_matches(pages: Seq<Option<usize>>, page: usize)
    ensures
        up_to_page(pages, page) <= pages.len(),
    decreases pages.len(),
{
    if pages.len() > 0 {
        counts_stay_within_matches(pages.drop_last(), page);
    }
}

} // verus!
