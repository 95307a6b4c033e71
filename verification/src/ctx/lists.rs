//! List numbering and the numbering of headings.

use vstd::prelude::*;

use crate::ctx::state::{DocxCtx, ListShape};
use crate::dom::{
    AbstractNum, HeadingStyleSample, ListLevel, ListSpec, MultiLevelType, NumInstance, RunProps,
};
use crate::heading_numbering::{copy_levels, level_view, levels_view};
use crate::props::{RunLook, plain_look};
use crate::text::{opt_str_eq, str_eq};

verus! {

fn level_eq(a: &ListLevel, b: &ListLevel) -> (r: bool)
    ensures
        r == (level_view(*a) == level_view(*b)),
{
    a.num_fmt == b.num_fmt && str_eq(a.lvl_text.as_str(), b.lvl_text.as_str()) && a.start
        == b.start && a.ind_left == b.ind_left && a.ind_hanging == b.ind_hanging && opt_str_eq(
        &a.bullet_font,
        &b.bullet_font,
    ) && opt_str_eq(&a.pstyle, &b.pstyle)
}

/// Whether two sequences of list levels say the same.
pub fn levels_eq(a: &Vec<ListLevel>, b: &Vec<ListLevel>) -> (r: bool)
    ensures
        r == (levels_view(a@) == levels_view(b@)),
{
    if a.len() != b.len() {
        assert(levels_view(a@).len() != levels_view(b@).len());
        return false;
    }
    let mut i: usize = 0;
    while i < a.len()
        invariant
            i <= a.len(),
            a@.len() == b@.len(),
            forall|k: int| 0 <= k < i ==> level_view(#[trigger] a@[k]) == level_view(b@[k]),
        decreases a.len() - i,
    {
        if !level_eq(&a[i], &b[i]) {
            assert(levels_view(a@)[i as int] != levels_view(b@)[i as int]);
            return false;
        }
        i = i + 1;
    }
    assert(levels_view(a@) =~= levels_view(b@));
    true
}

/// The index of the first shape with the given levels and kind from `i` on, or
/// the length.
pub open spec fn shape_index(
    shapes: Seq<ListShape>,
    levels: Seq<ListLevel>,
    multilevel: MultiLevelType,
    i: int,
) -> int
    decreases shapes.len() - i,
{
    if 0 <= i < shapes.len() && !(levels_view(shapes[i].levels@) == levels_view(levels)
        && shapes[i].multilevel == multilevel) {
        shape_index(shapes, levels, multilevel, i + 1)
    } else {
        i
    }
}

/// The index of the first abstract numbering with the given levels and kind from
/// `i` on, or the length.
pub open spec fn abstract_index(
    abstracts: Seq<AbstractNum>,
    levels: Seq<ListLevel>,
    multilevel: MultiLevelType,
    i: int,
) -> int
    decreases abstracts.len() - i,
{
    if 0 <= i < abstracts.len() && !(levels_view(abstracts[i].levels@) == levels_view(levels)
        && abstracts[i].multilevel == multilevel) {
        abstract_index(abstracts, levels, multilevel, i + 1)
    } else {
        i
    }
}

/// Whether `after` is `before` with an abstract numbering of the given shape,
/// reused when there is one, and `id` is its identifier.
pub open spec fn abstract_registered(
    before: Seq<AbstractNum>,
    after: Seq<AbstractNum>,
    levels: Seq<ListLevel>,
    multilevel: MultiLevelType,
    id: u32,
) -> bool {
    let at = abstract_index(before, levels, multilevel, 0);
    if at < before.len() {
        after == before && id == before[at].id
    } else {
        &&& after.len() == before.len() + 1
        &&& after.take(before.len() as int) == before
        &&& id == before.len()
        &&& after.last().id == id
        &&& levels_view(after.last().levels@) == levels_view(levels)
        &&& after.last().multilevel == multilevel
    }
}

/// Whether an abstract numbering can be had: there is one of the given shape, or
/// its place can be counted.
pub open spec fn can_register_abstract(
    abstracts: Seq<AbstractNum>,
    levels: Seq<ListLevel>,
    multilevel: MultiLevelType,
) -> bool {
    abstract_index(abstracts, levels, multilevel, 0) < abstracts.len() || abstracts.len()
        < u32::MAX
}

/// Whether a list can be registered: it needs no restart and is known, or there is
/// a number identifier left and its abstract numbering can be had.
pub open spec fn can_register(
    ctx: DocxCtx,
    levels: Seq<ListLevel>,
    multilevel: MultiLevelType,
    restart: bool,
) -> bool {
    ||| !restart && shape_index(ctx.list_shapes@, levels, multilevel, 0) < ctx.list_shapes@.len()
    ||| ctx.next_num_id < u32::MAX && can_register_abstract(
        ctx.numbering.abstracts@,
        levels,
        multilevel,
    )
}

/// Whether `after` is `before` with the list registered under `num_id`.
pub open spec fn list_registered(
    before: DocxCtx,
    after: DocxCtx,
    levels: Seq<ListLevel>,
    multilevel: MultiLevelType,
    restart: bool,
    num_id: u32,
) -> bool {
    let at = shape_index(before.list_shapes@, levels, multilevel, 0);
    if !restart && at < before.list_shapes@.len() {
        after == before && num_id == before.list_shapes@[at].num_id
    } else {
        &&& num_id == before.next_num_id
        &&& after.next_num_id == num_id + 1
        &&& after.numbering.nums@.len() == before.numbering.nums@.len() + 1
        &&& after.numbering.nums@.take(before.numbering.nums@.len() as int)
            == before.numbering.nums@
        &&& after.numbering.nums@.last().num_id == num_id
        &&& after.numbering.nums@.last().start_override == (if restart && levels.len() > 0 {
            Some(levels[0].start)
        } else {
            None
        })
        &&& abstract_registered(
            before.numbering.abstracts@,
            after.numbering.abstracts@,
            levels,
            multilevel,
            after.numbering.nums@.last().abstract_id,
        )
        &&& if restart {
            after.list_shapes@ == before.list_shapes@
        } else {
            &&& after.list_shapes@.len() == before.list_shapes@.len() + 1
            &&& after.list_shapes@.take(before.list_shapes@.len() as int) == before.list_shapes@
            &&& levels_view(after.list_shapes@.last().levels@) == levels_view(levels)
            &&& after.list_shapes@.last().multilevel == multilevel
            &&& after.list_shapes@.last().num_id == num_id
        }
        &&& after == (DocxCtx {
            numbering: after.numbering,
            list_shapes: after.list_shapes,
            next_num_id: after.next_num_id,
            ..before
        })
    }
}

/// What a heading style sample keeps of a heading's formatting.
pub open spec fn heading_look(p: RunLook) -> RunLook {
    RunLook {
        font: p.font,
        bold: p.bold,
        italic: p.italic,
        color: p.color,
        size_half_pt: p.size_half_pt,
        ..plain_look()
    }
}

/// The formatting that a heading's style owns.
pub fn style_owned_heading_props(props: RunProps) -> (r: RunProps)
    ensures
        r@ == heading_look(props@),
{
    let mut p: RunProps = RunProps::default();
    p.font = props.font;
    p.bold = props.bold;
    p.italic = props.italic;
    p.color = props.color;
    p.size_half_pt = props.size_half_pt;
    p
}

/// The current heading numbers after `number` was seen at `level`: deeper levels
/// start over.
pub open spec fn numbers_noted(
    before: Seq<Option<String>>,
    after: Seq<Option<String>>,
    level: int,
    number: String,
) -> bool {
    &&& after.len() == (if before.len() <= level {
        level + 1
    } else {
        before.len() as int
    })
    &&& forall|i: int|
        0 <= i < after.len() ==> #[trigger] after[i] == (if i == level {
            Some(number)
        } else if i < level && i < before.len() {
            before[i]
        } else {
            None
        })
}

impl DocxCtx {
    fn register_abstract(&mut self, levels: &Vec<ListLevel>, multilevel: MultiLevelType) -> (id:
        u32)
        requires
            can_register_abstract(old(self).numbering.abstracts@, levels@, multilevel),
        ensures
            abstract_registered(
                old(self).numbering.abstracts@,
                final(self).numbering.abstracts@,
                levels@,
                multilevel,
                id,
            ),
            final(self).numbering.nums == old(self).numbering.nums,
            *final(self) == (DocxCtx { numbering: final(self).numbering, ..*old(self) }),
    {
        let n: usize = self.numbering.abstracts.len();
        let mut i: usize = 0;
        while i < n
            invariant
                i <= n,
                n == self.numbering.abstracts@.len(),
                *self == *old(self),
                abstract_index(self.numbering.abstracts@, levels@, multilevel, 0)
                    == abstract_index(self.numbering.abstracts@, levels@, multilevel, i as int),
            decreases n - i,
        {
            let a: &AbstractNum = &self.numbering.abstracts[i];
            if levels_eq(&a.levels, levels) && a.multilevel == multilevel {
                return a.id;
            }
            i = i + 1;
        }
        let id: u32 = n as u32;
        self.numbering.abstracts.push(AbstractNum { id, levels: copy_levels(levels), multilevel });
        assert(self.numbering.abstracts@.take(n as int) =~= old(self).numbering.abstracts@);
        id
    }

    /// Registers a numbering shape, or reuses an equal one that needs no restart;
    /// returns the number identifier.
    pub fn register_list(&mut self, spec: ListSpec) -> (num_id: u32)
        requires
            can_register(*old(self), spec.levels@, spec.multilevel, spec.restart_at_1),
        ensures
            list_registered(
                *old(self),
                *final(self),
                spec.levels@,
                spec.multilevel,
                spec.restart_at_1,
                num_id,
            ),
    {
        if !spec.restart_at_1 {
            let n: usize = self.list_shapes.len();
            let mut i: usize = 0;
            while i < n
                invariant
                    i <= n,
                    n == self.list_shapes@.len(),
                    *self == *old(self),
                    !spec.restart_at_1,
                    shape_index(self.list_shapes@, spec.levels@, spec.multilevel, 0)
                        == shape_index(
                        self.list_shapes@,
                        spec.levels@,
                        spec.multilevel,
                        i as int,
                    ),
                decreases n - i,
            {
                let s: &ListShape = &self.list_shapes[i];
                if levels_eq(&s.levels, &spec.levels) && s.multilevel == spec.multilevel {
                    return s.num_id;
                }
                i = i + 1;
            }
            assert(shape_index(self.list_shapes@, spec.levels@, spec.multilevel, 0) == n);
        }
        let abstract_id: u32 = self.register_abstract(&spec.levels, spec.multilevel);
        let num_id: u32 = self.next_num_id;
        self.next_num_id = num_id + 1;
        let start_override: Option<u64> = if spec.restart_at_1 && spec.levels.len() > 0 {
            Some(spec.levels[0].start)
        } else {
            None
        };
        self.numbering.nums.push(NumInstance { num_id, abstract_id, start_override });
        assert(self.numbering.nums@.take(old(self).numbering.nums@.len() as int)
            =~= old(self).numbering.nums@);
        if !spec.restart_at_1 {
            self.list_shapes.push(
                ListShape { levels: spec.levels, multilevel: spec.multilevel, num_id },
            );
            assert(self.list_shapes@.take(old(self).list_shapes@.len() as int) =~= old(
                self,
            ).list_shapes@);
        }
        num_id
    }

    /// Notes a heading level; the deepest one seen decides how many heading
    /// styles there are.
    pub fn note_heading_level(&mut self, level: u8)
        ensures
            *final(self) == (DocxCtx {
                max_heading_level: if level > old(self).max_heading_level {
                    level
                } else {
                    old(self).max_heading_level
                },
                ..*old(self)
            }),
    {
        if level > self.max_heading_level {
            self.max_heading_level = level;
        }
    }

    /// Records the formatting that should define a heading level's style.
    pub fn note_heading_style(&mut self, level: u8, props: RunProps)
        ensures
            final(self).heading_style_samples@.len() == old(self).heading_style_samples@.len() + 1,
            final(self).heading_style_samples@.drop_last() == old(self).heading_style_samples@,
            final(self).heading_style_samples@.last().level == level,
            final(self).heading_style_samples@.last().rpr@ == heading_look(props@),
            *final(self) == (DocxCtx {
                heading_style_samples: final(self).heading_style_samples,
                ..*old(self)
            }),
    {
        let rpr: RunProps = style_owned_heading_props(props);
        self.heading_style_samples.push(HeadingStyleSample { level, rpr });
        assert(self.heading_style_samples@.drop_last() =~= old(self).heading_style_samples@);
    }

    /// Folds one numbered heading's shape into the document's. One shape must
    /// describe the whole document: headings that disagree, and a heading that
    /// cannot be stated, leave none.
    pub fn note_heading_numbering(&mut self, levels: Option<Vec<ListLevel>>)
        ensures
            match old(self).heading_num_levels {
                None => final(self).heading_num_levels == Some(levels),
                Some(agreed) => if opt_levels(agreed) == opt_levels(levels) {
                    final(self).heading_num_levels == old(self).heading_num_levels
                } else {
                    final(self).heading_num_levels == Some(None::<Vec<ListLevel>>)
                },
            },
            *final(self) == (DocxCtx {
                heading_num_levels: final(self).heading_num_levels,
                ..*old(self)
            }),
    {
        let known: bool;
        let agree: bool;
        match &self.heading_num_levels {
            None => {
                known = false;
                agree = false;
            },
            Some(agreed) => {
                known = true;
                agree = match (agreed, &levels) {
                    (None, None) => true,
                    (Some(a), Some(b)) => levels_eq(a, b),
                    _ => false,
                };
            },
        }
        if !known {
            self.heading_num_levels = Some(levels);
        } else if !agree {
            self.heading_num_levels = Some(None);
        }
    }

    /// Records the visible number of a heading. Numbers of deeper levels are
    /// forgotten.
    pub fn note_heading_number(&mut self, level: usize, number: String)
        requires
            level < usize::MAX,
        ensures
            numbers_noted(
                old(self).current_heading_numbers@,
                final(self).current_heading_numbers@,
                level as int,
                number,
            ),
            *final(self) == (DocxCtx {
                current_heading_numbers: final(self).current_heading_numbers,
                ..*old(self)
            }),
    {
        let ghost before = self.current_heading_numbers@;
        while self.current_heading_numbers.len() <= level
            invariant
                level < usize::MAX,
                before == old(self).current_heading_numbers@,
                self.current_heading_numbers@.len() >= before.len(),
                before.len() <= level ==> self.current_heading_numbers@.len() <= level + 1,
                before.len() > level ==> self.current_heading_numbers@.len() == before.len(),
                forall|i: int|
                    0 <= i < self.current_heading_numbers@.len() ==> #[trigger]
                        self.current_heading_numbers@[i] == (if i < before.len() {
                        before[i]
                    } else {
                        None
                    }),
                *self == (DocxCtx {
                    current_heading_numbers: self.current_heading_numbers,
                    ..*old(self)
                }),
            decreases level + 1 - self.current_heading_numbers@.len(),
        {
            self.current_heading_numbers.push(None);
        }
        let ghost grown = self.current_heading_numbers@;
        self.current_heading_numbers.set(level, Some(number));
        let n: usize = self.current_heading_numbers.len();
        let mut i: usize = level + 1;
        while i < n
            invariant
                level < i <= n,
                n == self.current_heading_numbers@.len(),
                grown.len() == n,
                forall|k: int|
                    0 <= k < n ==> #[trigger] self.current_heading_numbers@[k] == (if k == level {
                        Some(number)
                    } else if level < k < i {
                        None
                    } else {
                        grown[k]
                    }),
                *self == (DocxCtx {
                    current_heading_numbers: self.current_heading_numbers,
                    ..*old(self)
                }),
            decreases n - i,
        {
            self.current_heading_numbers.set(i, None);
            i = i + 1;
        }
    }

    /// The deepest level whose current number is the given one.
    pub fn heading_level_for_number(&self, number: &str) -> (r: Option<usize>)
        ensures
            match r {
                Some(level) => {
                    &&& level < self.current_heading_numbers@.len()
                    &&& number_is(self.current_heading_numbers@[level as int], number@)
                    &&& forall|i: int|
                        level < i < self.current_heading_numbers@.len() ==> !number_is(
                            #[trigger] self.current_heading_numbers@[i],
                            number@,
                        )
                },
                None => forall|i: int|
                    0 <= i < self.current_heading_numbers@.len() ==> !number_is(
                        #[trigger] self.current_heading_numbers@[i],
                        number@,
                    ),
            },
    {
        let mut i: usize = self.current_heading_numbers.len();
        while i > 0
            invariant
                i <= self.current_heading_numbers@.len(),
                forall|k: int|
                    i <= k < self.current_heading_numbers@.len() ==> !number_is(
                        #[trigger] self.current_heading_numbers@[k],
                        number@,
                    ),
            decreases i,
        {
            i = i - 1;
            let found: bool = match &self.current_heading_numbers[i] {
                Some(current) => str_eq(current.as_str(), number),
                None => false,
            };
            if found {
                return Some(i);
            }
        }
        None
    }
}

/// What optional list levels say.
pub open spec fn opt_levels(levels: Option<Vec<ListLevel>>) -> Option<
    Seq<
        (
            crate::dom::NumFmt,
            Seq<char>,
            u64,
            i32,
            i32,
            Option<Seq<char>>,
            Option<Seq<char>>,
        ),
    >,
> {
    match levels {
        Some(l) => Some(levels_view(l@)),
        None => None,
    }
}

/// Whether a current heading number is the given text.
pub open spec fn number_is(current: Option<String>, number: Seq<char>) -> bool {
    match current {
        Some(text) => text@ == number,
        None => false,
    }
}

proof fn lemma_shape_index(
    shapes: Seq<ListShape>,
    levels: Seq<ListLevel>,
    multilevel: MultiLevelType,
    i: int,
)
    requires
        0 <= i <= shapes.len(),
    ensures
        i <= shape_index(shapes, levels, multilevel, i) <= shapes.len(),
        forall|k: int|
            i <= k < shape_index(shapes, levels, multilevel, i) ==> !(levels_view(
                (#[trigger] shapes[k]).levels@,
            ) == levels_view(levels) && shapes[k].multilevel == multilevel),
        ({
            let at = shape_index(shapes, levels, multilevel, i);
            at < shapes.len() ==> levels_view(shapes[at].levels@) == levels_view(levels)
                && shapes[at].multilevel == multilevel
        }),
    decreases shapes.len() - i,
{
    if i < shapes.len() && !(levels_view(shapes[i].levels@) == levels_view(levels)
        && shapes[i].multilevel == multilevel) {
        lemma_shape_index(shapes, levels, multilevel, i + 1);
    }
}

/// Registering the same list twice without a restart gives the same number
/// identifier, and the second time changes nothing.
pub proof fn equal_lists_share_a_number(
    first: DocxCtx,
    second: DocxCtx,
    third: DocxCtx,
    levels: Seq<ListLevel>,
    multilevel: MultiLevelType,
    a: u32,
    b: u32,
)
    requires
        list_registered(first, second, levels, multilevel, false, a),
        list_registered(second, third, levels, multilevel, false, b),
    ensures
        a == b,
        third == second,
{
    let before = first.list_shapes@;
    let after = second.list_shapes@;
    lemma_shape_index(before, levels, multilevel, 0);
    lemma_shape_index(after, levels, multilevel, 0);
    let at = shape_index(before, levels, multilevel, 0);
    if at >= before.len() {
        let found = shape_index(after, levels, multilevel, 0);
        let last = before.len() as int;
        assert(levels_view(after[last].levels@) == levels_view(levels));
        assert(found <= last);
        if found < last {
            assert(after.take(last)[found] == before[found]);
        }
    }
}

/// A list that restarts gets a number identifier of its own: one that no
/// registration before it handed out.
pub proof fn restarted_list_is_fresh(
    before: DocxCtx,
    after: DocxCtx,
    levels: Seq<ListLevel>,
    multilevel: MultiLevelType,
    num_id: u32,
)
    requires
        list_registered(before, after, levels, multilevel, true, num_id),
        forall|i: int|
            0 <= i < before.numbering.nums@.len() ==> (#[trigger] before.numbering.nums@[i]).num_id
                < before.next_num_id,
    ensures
        forall|i: int|
            0 <= i < before.numbering.nums@.len() ==> (#[trigger] before.numbering.nums@[i]).num_id
                != num_id,
        forall|i: int|
            0 <= i < after.numbering.nums@.len() ==> (#[trigger] after.numbering.nums@[i]).num_id
                < after.next_num_id,
{
    assert forall|i: int| 0 <= i < after.numbering.nums@.len() implies (
    #[trigger] after.numbering.nums@[i]).num_id < after.next_num_id by {
        if i < before.numbering.nums@.len() {
            assert(after.numbering.nums@.take(before.numbering.nums@.len() as int)[i]
                == before.numbering.nums@[i]);
        }
    }
}

proof fn lemma_abstract_index(
    abstracts: Seq<AbstractNum>,
    levels: Seq<ListLevel>,
    multilevel: MultiLevelType,
    i: int,
)
    requires
        0 <= i <= abstracts.len(),
    ensures
        i <= abstract_index(abstracts, levels, multilevel, i) <= abstracts.len(),
        forall|k: int|
            i <= k < abstract_index(abstracts, levels, multilevel, i) ==> !(levels_view(
                (#[trigger] abstracts[k]).levels@,
            ) == levels_view(levels) && abstracts[k].multilevel == multilevel),
    decreases abstracts.len() - i,
{
    if i < abstracts.len() && !(levels_view(abstracts[i].levels@) == levels_view(levels)
        && abstracts[i].multilevel == multilevel) {
        lemma_abstract_index(abstracts, levels, multilevel, i + 1);
    }
}

/// One registration of a list and the number identifier that it gave.
pub struct Registration {
    pub levels: Seq<ListLevel>,
    pub multilevel: MultiLevelType,
    pub restart: bool,
    pub num_id: u32,
}

/// Whether two registrations are of the same list.
pub open spec fn same_list(a: Registration, b: Registration) -> bool {
    levels_view(a.levels) == levels_view(b.levels) && a.multilevel == b.multilevel && a.restart
        == b.restart
}

/// Whether a list that does not restart was registered by one of the first `n`
/// calls.
pub open spec fn was_registered(calls: Seq<Registration>, n: int) -> bool {
    !calls[n].restart && exists|m: int| 0 <= m < n && same_list(#[trigger] calls[m], calls[n])
}

/// Whether states are those of a context that starts without lists, around calls
/// that register lists.
pub open spec fn are_registered(states: Seq<DocxCtx>, calls: Seq<Registration>) -> bool {
    &&& states.len() == calls.len() + 1
    &&& states[0].numbering.abstracts@.len() == 0
    &&& states[0].numbering.nums@.len() == 0
    &&& states[0].list_shapes@.len() == 0
    &&& forall|n: int|
        #![trigger calls[n]]
        0 <= n < calls.len() ==> list_registered(
            states[n],
            states[n + 1],
            calls[n].levels,
            calls[n].multilevel,
            calls[n].restart,
            calls[n].num_id,
        )
}

/// Whether abstract lists are numbered by their place, and no two of them agree in
/// both their levels and their kind.
pub open spec fn abstracts_differ(abstracts: Seq<AbstractNum>) -> bool {
    &&& forall|i: int| 0 <= i < abstracts.len() ==> (#[trigger] abstracts[i]).id == i
    &&& forall|i: int, j: int|
        0 <= i < j < abstracts.len() ==> !(levels_view((#[trigger] abstracts[i]).levels@)
            == levels_view((#[trigger] abstracts[j]).levels@) && abstracts[i].multilevel
            == abstracts[j].multilevel)
}

spec fn shape_is(shape: ListShape, call: Registration) -> bool {
    levels_view(shape.levels@) == levels_view(call.levels) && shape.multilevel == call.multilevel
        && shape.num_id == call.num_id
}

/// Whether the shapes are those of the lists that the first `n` calls registered
/// without a restart, each of them once.
spec fn are_shapes(shapes: Seq<ListShape>, calls: Seq<Registration>, n: int) -> bool {
    &&& forall|m: int|
        #![trigger calls[m]]
        0 <= m < n && !calls[m].restart ==> exists|k: int|
            0 <= k < shapes.len() && shape_is(#[trigger] shapes[k], calls[m])
    &&& forall|k: int|
        #![trigger shapes[k]]
        0 <= k < shapes.len() ==> exists|m: int|
            0 <= m < n && !(#[trigger] calls[m]).restart && shape_is(shapes[k], calls[m])
    &&& forall|j: int, k: int|
        0 <= j < k < shapes.len() ==> !(levels_view((#[trigger] shapes[j]).levels@) == levels_view(
            (#[trigger] shapes[k]).levels@,
        ) && shapes[j].multilevel == shapes[k].multilevel)
}

/// What holds of the state after the first `n` calls.
spec fn in_order(ctx: DocxCtx, calls: Seq<Registration>, n: int) -> bool {
    &&& abstracts_differ(ctx.numbering.abstracts@)
    &&& forall|m: int| 0 <= m < n ==> (#[trigger] calls[m]).num_id < ctx.next_num_id
    &&& are_shapes(ctx.list_shapes@, calls, n)
}

proof fn lemma_abstracts_kept(
    before: Seq<AbstractNum>,
    after: Seq<AbstractNum>,
    levels: Seq<ListLevel>,
    multilevel: MultiLevelType,
    id: u32,
)
    requires
        abstracts_differ(before),
        abstract_registered(before, after, levels, multilevel, id),
    ensures
        abstracts_differ(after),
{
    lemma_abstract_index(before, levels, multilevel, 0);
    let n = before.len() as int;
    if after.len() == n + 1 && abstract_index(before, levels, multilevel, 0) == n {
        assert forall|i: int| 0 <= i < n implies after[i] == before[i] by {
            assert(after.take(n)[i] == before[i]);
        }
    }
}

proof fn lemma_known(a: DocxCtx, calls: Seq<Registration>, n: int)
    requires
        0 <= n < calls.len(),
        in_order(a, calls, n),
        !calls[n].restart,
    ensures
        ({
            let at = shape_index(a.list_shapes@, calls[n].levels, calls[n].multilevel, 0);
            &&& was_registered(calls, n) <==> at < a.list_shapes@.len()
            &&& forall|m: int|
                0 <= m < n && same_list(#[trigger] calls[m], calls[n]) ==> at
                    < a.list_shapes@.len() && a.list_shapes@[at].num_id == calls[m].num_id
        }),
{
    let shapes = a.list_shapes@;
    let at = shape_index(shapes, calls[n].levels, calls[n].multilevel, 0);
    lemma_shape_index(shapes, calls[n].levels, calls[n].multilevel, 0);
    assert forall|m: int| 0 <= m < n && same_list(#[trigger] calls[m], calls[n]) implies at
        < shapes.len() && shapes[at].num_id == calls[m].num_id by {
        let k = choose|k: int| 0 <= k < shapes.len() && shape_is(#[trigger] shapes[k], calls[m]);
        assert(levels_view(shapes[k].levels@) == levels_view(calls[n].levels));
        assert(at <= k);
        if at < k {
            assert(levels_view(shapes[at].levels@) == levels_view(shapes[k].levels@));
        }
    }
    if at < shapes.len() {
        let m = choose|m: int|
            0 <= m < n && !(#[trigger] calls[m]).restart && shape_is(shapes[at], calls[m]);
        assert(same_list(calls[m], calls[n]));
    }
}

proof fn lemma_same_shapes(shapes: Seq<ListShape>, calls: Seq<Registration>, n: int)
    requires
        0 <= n < calls.len(),
        are_shapes(shapes, calls, n),
        calls[n].restart || exists|k: int|
            0 <= k < shapes.len() && shape_is(#[trigger] shapes[k], calls[n]),
    ensures
        are_shapes(shapes, calls, n + 1),
{
    assert forall|k: int| #![trigger shapes[k]] 0 <= k < shapes.len() implies exists|m: int|
        0 <= m < n + 1 && !(#[trigger] calls[m]).restart && shape_is(shapes[k], calls[m]) by {
        let m = choose|m: int|
            0 <= m < n && !(#[trigger] calls[m]).restart && shape_is(shapes[k], calls[m]);
        assert(!calls[m].restart && shape_is(shapes[k], calls[m]));
    }
}

proof fn lemma_one_more_shape(
    old: Seq<ListShape>,
    new: Seq<ListShape>,
    calls: Seq<Registration>,
    n: int,
)
    requires
        0 <= n < calls.len(),
        are_shapes(old, calls, n),
        !calls[n].restart,
        new.len() == old.len() + 1,
        new.take(old.len() as int) == old,
        shape_is(new.last(), calls[n]),
        shape_index(old, calls[n].levels, calls[n].multilevel, 0) == old.len(),
    ensures
        are_shapes(new, calls, n + 1),
{
    lemma_shape_index(old, calls[n].levels, calls[n].multilevel, 0);
    assert forall|k: int| 0 <= k < old.len() implies #[trigger] new[k] == old[k] by {
        assert(new.take(old.len() as int)[k] == old[k]);
    }
    assert forall|m: int| #![trigger calls[m]] 0 <= m < n + 1 && !calls[m].restart implies exists|
        k: int,
    | 0 <= k < new.len() && shape_is(#[trigger] new[k], calls[m]) by {
        if m < n {
            let k = choose|k: int| 0 <= k < old.len() && shape_is(#[trigger] old[k], calls[m]);
            assert(shape_is(new[k], calls[m]));
        } else {
            assert(shape_is(new[old.len() as int], calls[m]));
        }
    }
    assert forall|k: int| #![trigger new[k]] 0 <= k < new.len() implies exists|m: int|
        0 <= m < n + 1 && !(#[trigger] calls[m]).restart && shape_is(new[k], calls[m]) by {
        if k < old.len() {
            let m = choose|m: int|
                0 <= m < n && !(#[trigger] calls[m]).restart && shape_is(old[k], calls[m]);
            assert(!calls[m].restart && shape_is(new[k], calls[m]));
        } else {
            assert(!calls[n].restart && shape_is(new[k], calls[n]));
        }
    }
    assert forall|j: int, k: int| 0 <= j < k < new.len() implies !(levels_view(
        (#[trigger] new[j]).levels@,
    ) == levels_view((#[trigger] new[k]).levels@) && new[j].multilevel == new[k].multilevel) by {
        assert(new[j] == old[j]);
        if k < old.len() {
            assert(new[k] == old[k]);
        }
    }
}

proof fn lemma_step(a: DocxCtx, b: DocxCtx, calls: Seq<Registration>, n: int)
    requires
        0 <= n < calls.len(),
        in_order(a, calls, n),
        list_registered(
            a,
            b,
            calls[n].levels,
            calls[n].multilevel,
            calls[n].restart,
            calls[n].num_id,
        ),
    ensures
        in_order(b, calls, n + 1),
{
    let call = calls[n];
    let old = a.list_shapes@;
    let at = shape_index(old, call.levels, call.multilevel, 0);
    lemma_shape_index(old, call.levels, call.multilevel, 0);
    if !call.restart && at < old.len() {
        let m = choose|m: int|
            0 <= m < n && !(#[trigger] calls[m]).restart && shape_is(old[at], calls[m]);
        assert(calls[m].num_id < a.next_num_id);
        assert(shape_is(old[at], call));
        lemma_same_shapes(old, calls, n);
    } else {
        lemma_abstracts_kept(
            a.numbering.abstracts@,
            b.numbering.abstracts@,
            call.levels,
            call.multilevel,
            b.numbering.nums@.last().abstract_id,
        );
        if call.restart {
            lemma_same_shapes(old, calls, n);
        } else {
            lemma_one_more_shape(old, b.list_shapes@, calls, n);
        }
    }
}

proof fn lemma_in_order(states: Seq<DocxCtx>, calls: Seq<Registration>, n: int)
    requires
        are_registered(states, calls),
        0 <= n <= calls.len(),
    ensures
        in_order(states[n], calls, n),
    decreases n,
{
    if n > 0 {
        lemma_in_order(states, calls, n - 1);
        assert(list_registered(
            states[n - 1],
            states[n - 1 + 1],
            calls[n - 1].levels,
            calls[n - 1].multilevel,
            calls[n - 1].restart,
            calls[n - 1].num_id,
        ));
        lemma_step(states[n - 1], states[n], calls, n - 1);
    }
}

/// Over any sequence of registrations: a list that does not restart and was
/// registered before gets the number identifier that it had, and nothing changes.
/// Any other registration gives an identifier that was never given before, and adds
/// exactly one list. At every time the abstract lists are numbered by their place
/// and no two of them are alike.
pub proof fn registered_lists_are_in_order(
    states: Seq<DocxCtx>,
    calls: Seq<Registration>,
    n: int,
)
    requires
        are_registered(states, calls),
        0 <= n < calls.len(),
    ensures
        abstracts_differ(states[n].numbering.abstracts@),
        abstracts_differ(states[n + 1].numbering.abstracts@),
        was_registered(calls, n) ==> states[n + 1] == states[n],
        !calls[n].restart ==> forall|m: int|
            0 <= m < n && same_list(#[trigger] calls[m], calls[n]) ==> calls[m].num_id
                == calls[n].num_id,
        !was_registered(calls, n) ==> {
            &&& forall|m: int| 0 <= m < n ==> (#[trigger] calls[m]).num_id != calls[n].num_id
            &&& states[n + 1].numbering.nums@.len() == states[n].numbering.nums@.len() + 1
            &&& states[n + 1].numbering.nums@.last().num_id == calls[n].num_id
        },
{
    lemma_in_order(states, calls, n);
    lemma_in_order(states, calls, n + 1);
    assert(list_registered(
        states[n],
        states[n + 1],
        calls[n].levels,
        calls[n].multilevel,
        calls[n].restart,
        calls[n].num_id,
    ));
    if !calls[n].restart {
        lemma_known(states[n], calls, n);
    }
}

} // verus!
