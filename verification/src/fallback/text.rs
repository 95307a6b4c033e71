//! Text and tags of laid-out frames. Lengths are in millionths of a point.

use vstd::prelude::*;

use crate::dom::{Location, Tag, TagElem};
use crate::length::sat64;
use crate::text::{is_white, white};

verus! {

/// A laid-out frame: its items with their places, in drawing order.
pub struct Frame {
    pub items: Vec<Placed>,
}

/// An item of a frame at its place.
pub struct Placed {
    pub x: i64,
    pub y: i64,
    pub item: FrameItem,
}

/// An item of a frame.
pub enum FrameItem {
    /// A frame of its own, moved by `tx` and `ty`.
    Group { tx: i64, ty: i64, frame: Frame },
    /// A run of text, with its font size and its width.
    Text { text: String, size: i64, width: i64 },
    Tag(Tag),
    /// Shapes, images and links.
    Other,
}

/// A run of text at its place on the page.
pub struct TextRun {
    pub x: i64,
    pub y: i64,
    pub text: String,
    /// The font size.
    pub size: i64,
    pub width: i64,
}

/// A run of text, by value.
pub struct RunAt {
    pub x: i64,
    pub y: i64,
    pub text: Seq<char>,
    pub size: i64,
    pub width: i64,
}

impl View for TextRun {
    type V = RunAt;

    open spec fn view(&self) -> RunAt {
        RunAt { x: self.x, y: self.y, text: self.text@, size: self.size, width: self.width }
    }
}

/// Runs, one by one.
pub open spec fn runs_at(runs: Seq<TextRun>) -> Seq<RunAt> {
    runs.map_values(|r: TextRun| r@)
}

fn add_sat64(a: i64, b: i64) -> (r: i64)
    ensures
        r == sat64(a + b),
{
    let sum: i128 = a as i128 + b as i128;
    if sum < i64::MIN as i128 {
        i64::MIN
    } else if sum > i64::MAX as i128 {
        i64::MAX
    } else {
        sum as i64
    }
}

/// The tags of a frame and of the frames in it, in order.
pub open spec fn frame_tags(items: Seq<Placed>) -> Seq<Tag>
    decreases items,
{
    if items.len() == 0 {
        Seq::empty()
    } else {
        frame_tags(items.drop_last()) + match items.last().item {
            FrameItem::Group { tx: _, ty: _, frame } => frame_tags(frame.items@),
            FrameItem::Tag(tag) => seq![tag],
            _ => Seq::empty(),
        }
    }
}

/// Collects the tags of a frame and of the frames in it.
pub fn collect_frame_tags(frame: &Frame, out: &mut Vec<Tag>)
    ensures
        final(out)@ == old(out)@ + frame_tags(frame.items@),
    decreases *frame,
{
    push_tags(&frame.items, out);
}

fn push_tags(items: &Vec<Placed>, out: &mut Vec<Tag>)
    ensures
        final(out)@ == old(out)@ + frame_tags(items@),
    decreases items@,
{
    let mut i: usize = 0;
    assert(out@ =~= old(out)@ + frame_tags(items@.take(0)));
    while i < items.len()
        invariant
            i <= items.len(),
            out@ == old(out)@ + frame_tags(items@.take(i as int)),
        decreases items.len() - i,
    {
        assert(items@.take(i + 1).drop_last() =~= items@.take(i as int));
        proof {
            assert(decreases_to!(items@ => items@[i as int]));
        }
        let ghost before = out@;
        match &items[i].item {
            FrameItem::Group { frame, .. } => {
                push_tags(&frame.items, out);
            }
            FrameItem::Tag(tag) => {
                out.push(*tag);
                assert(out@ =~= before + seq![*tag]);
            }
            _ => {
                assert(out@ =~= before + Seq::<Tag>::empty());
            }
        }
        assert(out@ =~= old(out)@ + frame_tags(items@.take(i + 1)));
        i = i + 1;
    }
    assert(items@.take(i as int) =~= items@);
}

/// The runs of text in a frame at a place. Runs without text do not count.
pub open spec fn frame_runs(items: Seq<Placed>, x: i64, y: i64) -> Seq<RunAt>
    decreases items,
{
    if items.len() == 0 {
        Seq::empty()
    } else {
        let placed = items.last();
        let at_x = sat64(x + placed.x);
        let at_y = sat64(y + placed.y);
        frame_runs(items.drop_last(), x, y) + match placed.item {
            FrameItem::Group { tx, ty, frame } => frame_runs(
                frame.items@,
                sat64(at_x + tx),
                sat64(at_y + ty),
            ),
            FrameItem::Text { text, size, width } => if text@.len() > 0 {
                seq![RunAt { x: at_x, y: at_y, text: text@, size, width }]
            } else {
                Seq::empty()
            },
            _ => Seq::empty(),
        }
    }
}

fn push_run(out: &mut Vec<TextRun>, x: i64, y: i64, text: &String, size: i64, width: i64)
    ensures
        runs_at(final(out)@) == runs_at(old(out)@).push(
            RunAt { x, y, text: text@, size, width },
        ),
{
    out.push(TextRun { x, y, text: text.clone(), size, width });
    assert(runs_at(out@) =~= runs_at(old(out)@).push(RunAt { x, y, text: text@, size, width }));
}

/// Collects the runs of text in a frame at a place.
pub fn collect_frame_text(items: &Vec<Placed>, x: i64, y: i64, out: &mut Vec<TextRun>)
    ensures
        runs_at(final(out)@) == runs_at(old(out)@) + frame_runs(items@, x, y),
    decreases items@,
{
    let mut i: usize = 0;
    assert(runs_at(out@) =~= runs_at(old(out)@) + frame_runs(items@.take(0), x, y));
    while i < items.len()
        invariant
            i <= items.len(),
            runs_at(out@) == runs_at(old(out)@) + frame_runs(items@.take(i as int), x, y),
        decreases items.len() - i,
    {
        assert(items@.take(i + 1).drop_last() =~= items@.take(i as int));
        proof {
            assert(decreases_to!(items@ => items@[i as int]));
        }
        let at_x: i64 = add_sat64(x, items[i].x);
        let at_y: i64 = add_sat64(y, items[i].y);
        match &items[i].item {
            FrameItem::Group { tx, ty, frame } => {
                collect_frame_text(
                    &frame.items,
                    add_sat64(at_x, *tx),
                    add_sat64(at_y, *ty),
                    out,
                );
            }
            FrameItem::Text { text, size, width } => {
                if text.as_str().unicode_len() > 0 {
                    push_run(out, at_x, at_y, text, *size, *width);
                }
            }
            _ => {}
        }
        assert(runs_at(out@) =~= runs_at(old(out)@) + frame_runs(items@.take(i + 1), x, y));
        i = i + 1;
    }
    assert(items@.take(i as int) =~= items@);
}

/// Whether a run comes no later than another in reading order: by line, then from
/// left to right.
pub open spec fn no_later(a: RunAt, b: RunAt) -> bool {
    a.y < b.y || (a.y == b.y && a.x <= b.x)
}

/// Runs in reading order, with one more run put behind those that come no later.
pub open spec fn with_run(runs: Seq<RunAt>, run: RunAt) -> Seq<RunAt>
    decreases runs.len(),
{
    if runs.len() == 0 || no_later(runs.last(), run) {
        runs.push(run)
    } else {
        with_run(runs.drop_last(), run).push(runs.last())
    }
}

/// Runs in reading order; runs at one place keep their order.
pub open spec fn in_order(runs: Seq<RunAt>) -> Seq<RunAt>
    decreases runs.len(),
{
    if runs.len() == 0 {
        Seq::empty()
    } else {
        with_run(in_order(runs.drop_last()), runs.last())
    }
}

/// The size of a number.
pub open spec fn size_of(n: int) -> int {
    if n < 0 {
        -n
    } else {
        n
    }
}

/// Whether text ends in white space.
pub open spec fn ends_white(text: Seq<char>) -> bool {
    text.len() > 0 && is_white(text.last())
}

/// What stands between a run and the text before it: a line break where the run
/// is on another line, a space where it neither continues the run before it nor
/// follows white space, and else nothing. A run continues another only where it
/// starts about where the other ends; one that starts back inside the other is
/// text of its own.
pub open spec fn gap(before: RunAt, run: RunAt, text: Seq<char>) -> Seq<char> {
    if 10 * size_of(run.y - before.y) > 6 * run.size {
        "\n"@
    } else if 4 * size_of(run.x - (before.x + before.width)) > run.size && !ends_white(text) {
        " "@
    } else {
        Seq::empty()
    }
}

/// The text of the first `n` runs.
pub open spec fn read(runs: Seq<RunAt>, n: int) -> Seq<char>
    decreases n,
{
    if n <= 0 {
        Seq::empty()
    } else if n == 1 {
        runs[0].text
    } else {
        let text = read(runs, n - 1);
        text + gap(runs[n - 2], runs[n - 1], text) + runs[n - 1].text
    }
}

/// The text of runs in reading order.
pub open spec fn recovered(runs: Seq<RunAt>) -> Seq<char> {
    read(in_order(runs), runs.len() as int)
}

proof fn lemma_with_run_len(runs: Seq<RunAt>, run: RunAt)
    ensures
        with_run(runs, run).len() == runs.len() + 1,
    decreases runs.len(),
{
    if runs.len() > 0 && !no_later(runs.last(), run) {
        lemma_with_run_len(runs.drop_last(), run);
    }
}

proof fn lemma_in_order_len(runs: Seq<RunAt>)
    ensures
        in_order(runs).len() == runs.len(),
    decreases runs.len(),
{
    if runs.len() > 0 {
        lemma_in_order_len(runs.drop_last());
        lemma_with_run_len(in_order(runs.drop_last()), runs.last());
    }
}

/// Where a run is put: behind position `at`, nothing comes no later.
proof fn lemma_with_run_at(runs: Seq<RunAt>, run: RunAt, at: int)
    requires
        0 <= at <= runs.len(),
        at > 0 ==> no_later(runs[at - 1], run),
        forall|k: int| at <= k < runs.len() ==> !no_later(#[trigger] runs[k], run),
    ensures
        with_run(runs, run) == runs.insert(at, run),
    decreases runs.len(),
{
    if at == runs.len() {
        assert(runs.insert(at, run) =~= runs.push(run));
    } else {
        assert(!no_later(runs[runs.len() - 1], run));
        lemma_with_run_at(runs.drop_last(), run, at);
        assert(runs.insert(at, run) =~= runs.drop_last().insert(at, run).push(runs.last()));
    }
}

fn comes_no_later(a: &TextRun, b: &TextRun) -> (r: bool)
    ensures
        r == no_later(a@, b@),
{
    a.y < b.y || (a.y == b.y && a.x <= b.x)
}

fn sort_runs(runs: Vec<TextRun>) -> (r: Vec<TextRun>)
    ensures
        runs_at(r@) == in_order(runs_at(runs@)),
{
    let ghost all = runs@;
    let mut out: Vec<TextRun> = Vec::new();
    assert(runs_at(out@) =~= in_order(runs_at(all.take(0))));
    for run in it: runs
        invariant
            it.seq() == all,
            runs_at(out@) == in_order(runs_at(all.take(it.index() as int))),
    {
        let ghost i = it.index() as int;
        let ghost sorted = runs_at(out@);
        let ghost look = run@;
        assert(run == all[i]);
        let mut at: usize = out.len();
        while at > 0 && !comes_no_later(&out[at - 1], &run)
            invariant
                at <= out.len(),
                sorted == runs_at(out@),
                look == run@,
                forall|k: int| at <= k < sorted.len() ==> !no_later(#[trigger] sorted[k], look),
            decreases at,
        {
            at = at - 1;
        }
        proof {
            if at > 0 {
                assert(sorted[at - 1] == out@[at - 1]@);
            }
            lemma_with_run_at(sorted, look, at as int);
        }
        out.insert(at, run);
        assert(runs_at(out@) =~= sorted.insert(at as int, look));
        assert(runs_at(all.take(i + 1)).drop_last() =~= runs_at(all.take(i)));
        assert(runs_at(all.take(i + 1)).last() == look);
    }
    assert(all.take(all.len() as int) =~= all);
    out
}

fn ends_in_white(text: &String) -> (r: bool)
    ensures
        r == ends_white(text@),
{
    let n: usize = text.as_str().unicode_len();
    n > 0 && white(text.as_str().get_char(n - 1))
}

fn distance(a: i128, b: i128) -> (r: i128)
    requires
        -0x1_0000_0000_0000_0000_0000 <= a <= 0x1_0000_0000_0000_0000_0000,
        -0x1_0000_0000_0000_0000_0000 <= b <= 0x1_0000_0000_0000_0000_0000,
    ensures
        r == size_of(a - b),
{
    if a < b {
        b - a
    } else {
        a - b
    }
}

fn push_gap(before: &TextRun, run: &TextRun, text: &mut String)
    ensures
        final(text)@ == old(text)@ + gap(before@, run@, old(text)@),
{
    let end: i128 = before.x as i128 + before.width as i128;
    if 10 * distance(run.y as i128, before.y as i128) > 6 * (run.size as i128) {
        text.append("\n");
    } else if 4 * distance(run.x as i128, end) > run.size as i128 && !ends_in_white(text) {
        text.append(" ");
    } else {
        assert(text@ =~= old(text)@ + Seq::<char>::empty());
    }
}

/// Recovers the text of runs in reading order.
pub fn positioned_text_to_string(runs: Vec<TextRun>) -> (r: String)
    ensures
        r@ == recovered(runs_at(runs@)),
{
    let ghost given = runs_at(runs@);
    proof {
        lemma_in_order_len(given);
    }
    let runs: Vec<TextRun> = sort_runs(runs);
    let ghost sorted = runs_at(runs@);
    let mut text: String = String::new();
    let mut i: usize = 0;
    while i < runs.len()
        invariant
            i <= runs.len(),
            sorted == runs_at(runs@),
            text@ == read(sorted, i as int),
        decreases runs.len() - i,
    {
        let ghost before = text@;
        if i > 0 {
            push_gap(&runs[i - 1], &runs[i], &mut text);
        }
        text.append(runs[i].text.as_str());
        assert(i == 0 ==> text@ =~= sorted[0].text);
        assert(sorted[i as int] == runs@[i as int]@);
        i = i + 1;
    }
    text
}

/// Recovers the text of a frame.
pub fn frame_to_text(frame: &Frame) -> (r: String)
    ensures
        r@ == recovered(frame_runs(frame.items@, 0, 0)),
{
    let mut runs: Vec<TextRun> = Vec::new();
    collect_frame_text(&frame.items, 0, 0, &mut runs);
    assert(runs_at(runs@) =~= frame_runs(frame.items@, 0, 0));
    positioned_text_to_string(runs)
}

/// Placed content that is open, and the runs of text that were met in each.
pub struct Scopes {
    /// The location of each open scope and the index of its group.
    pub active: Seq<(Location, int)>,
    pub groups: Seq<Seq<RunAt>>,
}

/// The last open scope of a location below `n`, or -1.
pub open spec fn last_open(active: Seq<(Location, int)>, location: Location, n: int) -> int
    decreases n,
{
    if n <= 0 {
        -1
    } else if active[n - 1].0 == location {
        n - 1
    } else {
        last_open(active, location, n - 1)
    }
}

impl Scopes {
    /// After a tag: placed content opens a scope with a group of its own, and the
    /// end of located content closes the last scope of its location.
    pub open spec fn tag(self, tag: Tag) -> Scopes {
        match tag {
            Tag::Start { location: Some(location), elem: TagElem::Place } => Scopes {
                active: self.active.push((location, self.groups.len() as int)),
                groups: self.groups.push(Seq::empty()),
            },
            Tag::End { location } => {
                let i = last_open(self.active, location, self.active.len() as int);
                if i >= 0 {
                    Scopes { active: self.active.remove(i), ..self }
                } else {
                    self
                }
            },
            _ => self,
        }
    }

    /// After a run of text, which belongs to the last scope that is open.
    pub open spec fn run(self, run: RunAt) -> Scopes {
        if self.active.len() > 0 {
            let i = self.active.last().1;
            Scopes { groups: self.groups.update(i, self.groups[i].push(run)), ..self }
        } else {
            self
        }
    }

    /// After a frame at a place.
    pub open spec fn frame(self, items: Seq<Placed>, x: i64, y: i64) -> Scopes
        decreases items,
    {
        if items.len() == 0 {
            self
        } else {
            let before = self.frame(items.drop_last(), x, y);
            let placed = items.last();
            let at_x = sat64(x + placed.x);
            let at_y = sat64(y + placed.y);
            match placed.item {
                FrameItem::Group { tx, ty, frame } => before.frame(
                    frame.items@,
                    sat64(at_x + tx),
                    sat64(at_y + ty),
                ),
                FrameItem::Text { text, size, width } => if text@.len() > 0 {
                    before.run(RunAt { x: at_x, y: at_y, text: text@, size, width })
                } else {
                    before
                },
                FrameItem::Tag(tag) => before.tag(tag),
                FrameItem::Other => before,
            }
        }
    }

    /// Whether every open scope has a group.
    pub open spec fn wf(self) -> bool {
        forall|k: int|
            0 <= k < self.active.len() ==> 0 <= (#[trigger] self.active[k]).1 < self.groups.len()
    }
}

/// The walk over a frame that collects the text of placed content.
pub struct PlacedText {
    pub active: Vec<(Location, usize)>,
    pub groups: Vec<Vec<TextRun>>,
}

impl View for PlacedText {
    type V = Scopes;

    open spec fn view(&self) -> Scopes {
        Scopes {
            active: self.active@.map_values(|a: (Location, usize)| (a.0, a.1 as int)),
            groups: self.groups@.map_values(|g: Vec<TextRun>| runs_at(g@)),
        }
    }
}

impl PlacedText {
    fn tag(&mut self, tag: Tag)
        requires
            old(self)@.wf(),
        ensures
            final(self)@ == old(self)@.tag(tag),
            final(self)@.wf(),
    {
        match tag {
            Tag::Start { location: Some(location), elem: TagElem::Place } => {
                let group: Vec<TextRun> = Vec::new();
                self.active.push((location, self.groups.len()));
                self.groups.push(group);
                assert(runs_at(group@) =~= Seq::<RunAt>::empty());
                assert(self@.active =~= old(self)@.tag(tag).active);
                assert(self@.groups =~= old(self)@.tag(tag).groups);
            }
            Tag::End { location } => {
                let n: usize = self.active.len();
                let mut i: usize = n;
                while i > 0
                    invariant
                        i <= n,
                        n == self.active.len(),
                        *self == *old(self),
                        old(self)@.wf(),
                        last_open(self@.active, location, n as int) == last_open(
                            self@.active,
                            location,
                            i as int,
                        ),
                    ensures
                        *self == *old(self),
                        i <= n,
                        i > 0 ==> last_open(self@.active, location, n as int) == i - 1,
                        i == 0 ==> last_open(self@.active, location, n as int) == -1,
                    decreases i,
                {
                    assert(self@.active[i - 1].0 == self.active@[i - 1].0);
                    if self.active[i - 1].0 == location {
                        break;
                    }
                    i = i - 1;
                }
                if i > 0 {
                    let _ = self.active.remove(i - 1);
                    assert(self@.active =~= old(self)@.active.remove(i - 1));
                }
            }
            _ => {}
        }
    }

    fn run(&mut self, x: i64, y: i64, text: &String, size: i64, width: i64)
        requires
            old(self)@.wf(),
        ensures
            final(self)@ == old(self)@.run(RunAt { x, y, text: text@, size, width }),
            final(self)@.wf(),
    {
        let n: usize = self.active.len();
        if n > 0 {
            let index: usize = self.active[n - 1].1;
            assert(self@.active[n - 1].1 == index);
            assert(index < self.groups@.len());
            let ghost run = RunAt { x, y, text: text@, size, width };
            push_run(&mut self.groups[index], x, y, text, size, width);
            assert(self@.groups =~= old(self)@.groups.update(
                index as int,
                old(self)@.groups[index as int].push(run),
            ));
        }
    }

    /// Collects the text of placed content in a frame at a place.
    pub fn collect_placed_frame_text(&mut self, items: &Vec<Placed>, x: i64, y: i64)
        requires
            old(self)@.wf(),
        ensures
            final(self)@ == old(self)@.frame(items@, x, y),
            final(self)@.wf(),
        decreases items@,
    {
        let mut i: usize = 0;
        while i < items.len()
            invariant
                i <= items.len(),
                self@ == old(self)@.frame(items@.take(i as int), x, y),
                self@.wf(),
            decreases items.len() - i,
        {
            assert(items@.take(i + 1).drop_last() =~= items@.take(i as int));
            proof {
                assert(decreases_to!(items@ => items@[i as int]));
            }
            let at_x: i64 = add_sat64(x, items[i].x);
            let at_y: i64 = add_sat64(y, items[i].y);
            match &items[i].item {
                FrameItem::Group { tx, ty, frame } => {
                    self.collect_placed_frame_text(
                        &frame.items,
                        add_sat64(at_x, *tx),
                        add_sat64(at_y, *ty),
                    );
                }
                FrameItem::Text { text, size, width } => {
                    if text.as_str().unicode_len() > 0 {
                        self.run(at_x, at_y, text, *size, *width);
                    }
                }
                FrameItem::Tag(tag) => {
                    self.tag(*tag);
                }
                FrameItem::Other => {}
            }
            i = i + 1;
        }
        assert(items@.take(i as int) =~= items@);
    }
}

/// The texts of groups, on a line each, without the empty ones.
pub open spec fn group_lines(groups: Seq<Seq<RunAt>>) -> Seq<char>
    decreases groups.len(),
{
    if groups.len() == 0 {
        Seq::empty()
    } else {
        let before = group_lines(groups.drop_last());
        let text = recovered(groups.last());
        if text.len() == 0 {
            before
        } else if before.len() == 0 {
            text
        } else {
            before + "\n"@ + text
        }
    }
}

/// The text of the placed content of a frame. Content that was placed by itself
/// is text of its own, wherever it stands.
pub open spec fn placed_text(items: Seq<Placed>) -> Seq<char> {
    group_lines(
        (Scopes { active: Seq::empty(), groups: Seq::empty() }).frame(items, 0, 0).groups,
    )
}

/// Recovers the text of the placed content of a frame.
pub fn frame_to_placed_text(frame: &Frame) -> (r: String)
    ensures
        r@ == placed_text(frame.items@),
{
    let mut walk: PlacedText = PlacedText { active: Vec::new(), groups: Vec::new() };
    assert(walk@.active =~= Seq::<(Location, int)>::empty());
    assert(walk@.groups =~= Seq::<Seq<RunAt>>::empty());
    walk.collect_placed_frame_text(&frame.items, 0, 0);
    let ghost looks = walk@.groups;
    let groups: Vec<Vec<TextRun>> = walk.groups;
    let ghost all = groups@;
    let mut text: String = String::new();
    assert(group_lines(looks.take(0)) =~= Seq::<char>::empty());
    for group in it: groups
        invariant
            it.seq() == all,
            looks == all.map_values(|g: Vec<TextRun>| runs_at(g@)),
            text@ == group_lines(looks.take(it.index() as int)),
    {
        let ghost i = it.index() as int;
        assert(group == all[i]);
        assert(looks.take(i + 1).drop_last() =~= looks.take(i));
        assert(looks.take(i + 1).last() == runs_at(group@));
        let one: String = positioned_text_to_string(group);
        if one.as_str().unicode_len() > 0 {
            if text.as_str().unicode_len() > 0 {
                text.append("\n");
            }
            let ghost before = text@;
            text.append(one.as_str());
            assert(before.len() == 0 ==> text@ =~= one@);
        }
    }
    assert(looks.take(all.len() as int) =~= looks);
    text
}

/// Whether runs are in reading order.
pub open spec fn ordered(runs: Seq<RunAt>) -> bool {
    forall|i: int, j: int|
        #![trigger runs[i], runs[j]]
        0 <= i < j < runs.len() ==> no_later(runs[i], runs[j])
}

proof fn lemma_with_run(runs: Seq<RunAt>, run: RunAt)
    requires
        ordered(runs),
    ensures
        ordered(with_run(runs, run)),
        with_run(runs, run).to_multiset() == runs.to_multiset().insert(run),
        forall|k: int|
            0 <= k < with_run(runs, run).len() ==> #[trigger] with_run(runs, run)[k] == run
                || runs.contains(with_run(runs, run)[k]),
    decreases runs.len(),
{
    broadcast use vstd::seq_lib::group_to_multiset_ensures;

    if runs.len() == 0 || no_later(runs.last(), run) {
        let after = runs.push(run);
        assert forall|i: int, j: int|
            #![trigger after[i], after[j]]
            0 <= i < j < after.len() implies no_later(after[i], after[j]) by {
            if j == runs.len() && i < runs.len() - 1 {
                assert(no_later(runs[i], runs[runs.len() - 1]));
            }
        }
    } else {
        let rest = runs.drop_last();
        lemma_with_run(rest, run);
        let inner = with_run(rest, run);
        let after = inner.push(runs.last());
        assert(runs =~= rest.push(runs.last()));
        assert(runs.to_multiset() == rest.to_multiset().insert(runs.last()));
        assert(after.to_multiset() =~= runs.to_multiset().insert(run));
        assert forall|i: int, j: int|
            #![trigger after[i], after[j]]
            0 <= i < j < after.len() implies no_later(after[i], after[j]) by {
            if j == inner.len() {
                if inner[i] != run {
                    let k = choose|k: int| 0 <= k < rest.len() && rest[k] == inner[i];
                    assert(no_later(runs[k], runs[runs.len() - 1]));
                }
            }
        }
        assert forall|k: int| 0 <= k < after.len() implies #[trigger] after[k] == run
            || runs.contains(after[k]) by {
            if k < inner.len() {
                if inner[k] != run {
                    let m = choose|m: int| 0 <= m < rest.len() && rest[m] == inner[k];
                    assert(runs[m] == after[k]);
                }
            } else {
                assert(runs[runs.len() - 1] == after[k]);
            }
        }
    }
}

/// Recovering text loses no run and reads the runs in order: line by line, and
/// each line from left to right.
pub proof fn recovered_text_keeps_every_run(runs: Seq<RunAt>)
    ensures
        in_order(runs).to_multiset() == runs.to_multiset(),
        ordered(in_order(runs)),
    decreases runs.len(),
{
    broadcast use vstd::seq_lib::group_to_multiset_ensures;

    if runs.len() > 0 {
        recovered_text_keeps_every_run(runs.drop_last());
        lemma_with_run(in_order(runs.drop_last()), runs.last());
        assert(runs =~= runs.drop_last().push(runs.last()));
    } else {
        assert(in_order(runs) =~= runs);
    }
}

/// Two runs of one line are glued into a word only where the second starts within
/// a quarter of its size from the end of the first: neither a gap nor an overlap
/// joins silently.
pub proof fn only_continued_runs_are_glued(first: RunAt, second: RunAt)
    requires
        no_later(first, second),
        !ends_white(first.text),
        10 * size_of(second.y - first.y) <= 6 * second.size,
        4 * size_of(second.x - (first.x + first.width)) > second.size,
    ensures
        recovered(seq![first, second]) == first.text + " "@ + second.text,
{
    let runs = seq![first, second];
    assert(runs.drop_last() =~= seq![first]);
    assert(seq![first].drop_last() =~= Seq::<RunAt>::empty());
    assert(in_order(seq![first].drop_last()) =~= Seq::<RunAt>::empty());
    assert(in_order(seq![first]) =~= seq![first]);
    assert(in_order(runs) =~= runs);
    assert(read(runs, 1) == first.text);
}

} // verus!
