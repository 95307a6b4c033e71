//! Page numbers: their format and the fields that show them.

use vstd::prelude::*;

use crate::ctx::inline::{is_live_field, live_field};
use crate::dom::{Block, Jc, Para, ParaChild, ParaProps, Run, RunProps};
use crate::props::{
    FlowLook, ParaLook, RunItem, flow_look, opt_static, plain_look, plain_para, run_item, run_items,
};
use crate::text::{concat2, str_eq, to_chars};

verus! {

/// Whether a character is alphanumeric, as `char::is_alphanumeric` has it.
pub uninterp spec fn alphanumeric(c: char) -> bool;

/// Whether an ASCII character is a letter or a digit.
pub open spec fn ascii_alphanumeric(c: char) -> bool {
    ('0' <= c <= '9') || ('A' <= c <= 'Z') || ('a' <= c <= 'z')
}

/// `char::is_alphanumeric`: a character of the Unicode classes of letters and
/// numbers. Among the ASCII characters these are the letters and the digits.
#[verifier::external_body]
fn is_alphanumeric(c: char) -> (r: bool)
    ensures
        r == alphanumeric(c),
        c as u32 <= 127 ==> r == ascii_alphanumeric(c),
{
    c.is_alphanumeric()
}

/// One counting place of a numbering pattern: the text before it, and what it
/// shows for one and for four, with the text behind it.
#[derive(Debug)]
pub struct NumberPiece {
    pub prefix: String,
    pub one: String,
    pub four: String,
}

/// A numbering pattern.
#[derive(Debug)]
pub struct NumberPattern {
    pub pieces: Vec<NumberPiece>,
    pub suffix: String,
}

/// A page numbering: a pattern, or a function that says nothing of its form.
#[derive(Debug)]
pub enum PageNumbering {
    Pattern(NumberPattern),
    Function,
}

/// A text without the characters at its end that are not alphanumeric.
pub open spec fn trimmed(s: Seq<char>) -> Seq<char>
    decreases s.len(),
{
    if s.len() > 0 && !alphanumeric(s.last()) {
        trimmed(s.drop_last())
    } else {
        s
    }
}

/// The number format that shows one and four as given.
pub open spec fn format_of(one: Seq<char>, four: Seq<char>) -> Seq<char> {
    if one == "01"@ && four == "04"@ {
        "decimalZero"@
    } else if one == "a"@ && four == "d"@ {
        "lowerLetter"@
    } else if one == "A"@ && four == "D"@ {
        "upperLetter"@
    } else if one == "i"@ && four == "iv"@ {
        "lowerRoman"@
    } else if one == "I"@ && four == "IV"@ {
        "upperRoman"@
    } else {
        "decimal"@
    }
}

/// The number format of the `k`-th counting place of a numbering.
pub open spec fn kth_format(numbering: PageNumbering, k: int) -> Seq<char> {
    match numbering {
        PageNumbering::Pattern(pattern) => if 0 <= k < pattern.pieces@.len() {
            format_of(trimmed(pattern.pieces@[k].one@), trimmed(pattern.pieces@[k].four@))
        } else {
            "decimal"@
        },
        PageNumbering::Function => "decimal"@,
    }
}

fn trimmed_is(s: &str, expected: &str) -> (r: bool)
    ensures
        r == (trimmed(s@) == expected@),
{
    let chars: Vec<char> = to_chars(s);
    let mut n: usize = chars.len();
    assert(chars@.take(n as int) =~= s@);
    while n > 0 && !is_alphanumeric(chars[n - 1])
        invariant
            n <= chars@.len(),
            chars@ == s@,
            trimmed(s@) == trimmed(s@.take(n as int)),
        decreases n,
    {
        assert(s@.take(n as int).drop_last() =~= s@.take(n - 1));
        n = n - 1;
    }
    let ghost t = s@.take(n as int);
    assert(trimmed(t) == t) by {
        if n > 0 {
            assert(t.last() == s@[n - 1]);
        }
    }
    let other: Vec<char> = to_chars(expected);
    if other.len() != n {
        return false;
    }
    let mut i: usize = 0;
    while i < n
        invariant
            i <= n,
            n <= chars@.len(),
            n == other@.len(),
            chars@ == s@,
            other@ == expected@,
            t == s@.take(n as int),
            trimmed(s@) == t,
            forall|k: int| 0 <= k < i ==> #[trigger] t[k] == expected@[k],
        decreases n - i,
    {
        if chars[i] != other[i] {
            assert(t[i as int] != expected@[i as int]);
            return false;
        }
        i = i + 1;
    }
    assert(t =~= expected@);
    true
}

proof fn lemma_markers()
    ensures
        "01"@ != "a"@,
        "01"@ != "A"@,
        "01"@ != "i"@,
        "01"@ != "I"@,
        "a"@ != "A"@,
        "a"@ != "i"@,
        "a"@ != "I"@,
        "A"@ != "i"@,
        "A"@ != "I"@,
        "i"@ != "I"@,
{
    reveal_strlit("01");
    reveal_strlit("a");
    reveal_strlit("A");
    reveal_strlit("i");
    reveal_strlit("I");
    assert("01"@.len() == 2);
    assert("a"@[0] == 'a');
    assert("A"@[0] == 'A');
    assert("i"@[0] == 'i');
    assert("I"@[0] == 'I');
}

/// The number format of the `k`-th counting place of a numbering, told from what
/// it shows for one and for four.
pub fn numbering_fmt_kth(numbering: &PageNumbering, k: usize) -> (r: &'static str)
    ensures
        r@ == kth_format(*numbering, k as int),
{
    let pattern: &NumberPattern = match numbering {
        PageNumbering::Pattern(pattern) => pattern,
        PageNumbering::Function => {
            return "decimal";
        },
    };
    if k >= pattern.pieces.len() {
        return "decimal";
    }
    let piece: &NumberPiece = &pattern.pieces[k];
    proof {
        lemma_markers();
    }
    if trimmed_is(piece.one.as_str(), "01") && trimmed_is(piece.four.as_str(), "04") {
        "decimalZero"
    } else if trimmed_is(piece.one.as_str(), "a") && trimmed_is(piece.four.as_str(), "d") {
        "lowerLetter"
    } else if trimmed_is(piece.one.as_str(), "A") && trimmed_is(piece.four.as_str(), "D") {
        "upperLetter"
    } else if trimmed_is(piece.one.as_str(), "i") && trimmed_is(piece.four.as_str(), "iv") {
        "lowerRoman"
    } else if trimmed_is(piece.one.as_str(), "I") && trimmed_is(piece.four.as_str(), "IV") {
        "upperRoman"
    } else {
        "decimal"
    }
}

/// The number format of a page numbering: that of its first counting place.
pub fn numbering_fmt(numbering: &PageNumbering) -> (r: &'static str)
    ensures
        r@ == kth_format(*numbering, 0),
{
    numbering_fmt_kth(numbering, 0)
}

/// The format switch of a field that shows a number in the given format; none
/// for decimal.
pub open spec fn format_switch(fmt: Seq<char>) -> Option<Seq<char>> {
    if fmt == "lowerRoman"@ {
        Some("roman"@)
    } else if fmt == "upperRoman"@ {
        Some("ROMAN"@)
    } else if fmt == "lowerLetter"@ {
        Some("alphabetic"@)
    } else if fmt == "upperLetter"@ {
        Some("ALPHABETIC"@)
    } else {
        None
    }
}

/// The format switch of a field that shows a number in the given format.
pub fn field_format_switch(fmt: &str) -> (r: Option<&'static str>)
    ensures
        opt_static(r) == format_switch(fmt@),
{
    if str_eq(fmt, "lowerRoman") {
        Some("roman")
    } else if str_eq(fmt, "upperRoman") {
        Some("ROMAN")
    } else if str_eq(fmt, "lowerLetter") {
        Some("alphabetic")
    } else if str_eq(fmt, "upperLetter") {
        Some("ALPHABETIC")
    } else {
        None
    }
}

/// The instruction of the field at the `k`-th counting place: the page first,
/// then the number of pages.
pub open spec fn place_instruction(numbering: PageNumbering, k: int) -> Seq<char> {
    let base = if k == 0 {
        "PAGE"@
    } else {
        "NUMPAGES"@
    };
    match format_switch(kth_format(numbering, k)) {
        Some(switch) => " "@ + base + " \\* "@ + switch + " "@,
        None => " "@ + base + " "@,
    }
}

fn instruction(numbering: &PageNumbering, k: usize) -> (r: String)
    ensures
        r@ == place_instruction(*numbering, k as int),
{
    let base: &str = if k == 0 {
        "PAGE"
    } else {
        "NUMPAGES"
    };
    let mut s: String = concat2(" ", base);
    match field_format_switch(numbering_fmt_kth(numbering, k)) {
        Some(switch) => {
            s.append(" \\* ");
            s.append(switch);
            s.append(" ");
        },
        None => s.append(" "),
    }
    s
}

/// A piece of a page number: literal text, or a field.
pub enum NumberItem {
    Literal(Seq<char>),
    Field(Seq<char>),
}

/// The pieces of the first `n` counting places of a pattern.
pub open spec fn number_items(numbering: PageNumbering, pattern: NumberPattern, n: int) -> Seq<
    NumberItem,
>
    decreases n,
{
    if n <= 0 {
        seq![]
    } else {
        let before = number_items(numbering, pattern, n - 1);
        let prefix = pattern.pieces@[n - 1].prefix@;
        (if prefix.len() > 0 {
            before.push(NumberItem::Literal(prefix))
        } else {
            before
        }).push(NumberItem::Field(place_instruction(numbering, n - 1)))
    }
}

/// The pieces of a page number: a pattern with several counting places shows the
/// page and the number of pages with its text around them, any other numbering
/// the page alone.
pub open spec fn page_number_items(numbering: Option<PageNumbering>) -> Seq<NumberItem> {
    match numbering {
        Some(PageNumbering::Pattern(pattern)) => if pattern.pieces@.len() >= 2 {
            let all = number_items(
                PageNumbering::Pattern(pattern),
                pattern,
                pattern.pieces@.len() as int,
            );
            if pattern.suffix@.len() > 0 {
                all.push(NumberItem::Literal(pattern.suffix@))
            } else {
                all
            }
        } else {
            seq![NumberItem::Field(" PAGE "@)]
        },
        _ => seq![NumberItem::Field(" PAGE "@)],
    }
}

/// Whether a child is a piece of a page number. A field shows one until it is
/// updated.
pub open spec fn is_number_item(child: ParaChild, item: NumberItem) -> bool {
    match (child, item) {
        (ParaChild::Run(run), NumberItem::Literal(text)) => run_item(run)
            == (RunItem::Text { props: plain_look(), text }),
        (ParaChild::Run(run), NumberItem::Field(instr)) => is_live_field(
            run,
            instr,
            seq![RunItem::Text { props: plain_look(), text: "1"@ }],
        ),
        _ => false,
    }
}

/// Whether children are pieces of a page number, one by one.
pub open spec fn are_number_items(children: Seq<ParaChild>, items: Seq<NumberItem>) -> bool {
    &&& children.len() == items.len()
    &&& forall|i: int|
        #![trigger children[i]]
        #![trigger items[i]]
        0 <= i < children.len() ==> is_number_item(children[i], items[i])
}

fn literal(text: &str) -> (r: ParaChild)
    ensures
        is_number_item(r, NumberItem::Literal(text@)),
{
    let props: RunProps = RunProps::default();
    assert(props@ == plain_look());
    ParaChild::Run(Run::Text { props, text: text.to_owned() })
}

fn page_field(instr: String) -> (r: ParaChild)
    ensures
        is_number_item(r, NumberItem::Field(instr@)),
{
    let props: RunProps = RunProps::default();
    assert(props@ == plain_look());
    let mut result: Vec<Run> = Vec::new();
    result.push(Run::Text { props, text: "1".to_owned() });
    assert(run_items(result@) =~= seq![RunItem::Text { props: plain_look(), text: "1"@ }]);
    ParaChild::Run(live_field(instr, result))
}

fn push_item(out: &mut Vec<ParaChild>, child: ParaChild, Ghost(items): Ghost<
    Seq<NumberItem>,
>, Ghost(item): Ghost<NumberItem>)
    requires
        are_number_items(old(out)@, items),
        is_number_item(child, item),
    ensures
        are_number_items(final(out)@, items.push(item)),
{
    out.push(child);
    assert forall|i: int| 0 <= i < out@.len() implies is_number_item(
        #[trigger] out@[i],
        items.push(item)[i],
    ) by {
        if i < items.len() {
            assert(is_number_item(old(out)@[i], items[i]));
        }
    }
}

fn pattern_children(numbering: &PageNumbering, pattern: &NumberPattern) -> (r: Vec<ParaChild>)
    requires
        *numbering == PageNumbering::Pattern(*pattern),
        pattern.pieces@.len() >= 2,
    ensures
        are_number_items(r@, page_number_items(Some(*numbering))),
{
    let mut out: Vec<ParaChild> = Vec::new();
    let n: usize = pattern.pieces.len();
    let mut k: usize = 0;
    while k < n
        invariant
            k <= n,
            n == pattern.pieces@.len(),
            are_number_items(out@, number_items(*numbering, *pattern, k as int)),
        decreases n - k,
    {
        let ghost mut items = number_items(*numbering, *pattern, k as int);
        let prefix: &str = pattern.pieces[k].prefix.as_str();
        if prefix.unicode_len() > 0 {
            let child: ParaChild = literal(prefix);
            push_item(&mut out, child, Ghost(items), Ghost(NumberItem::Literal(prefix@)));
            proof {
                items = items.push(NumberItem::Literal(prefix@));
            }
        }
        let instr: String = instruction(numbering, k);
        let ghost text = instr@;
        let child: ParaChild = page_field(instr);
        push_item(&mut out, child, Ghost(items), Ghost(NumberItem::Field(text)));
        k = k + 1;
    }
    let ghost items = number_items(*numbering, *pattern, n as int);
    let suffix: &str = pattern.suffix.as_str();
    if suffix.unicode_len() > 0 {
        let child: ParaChild = literal(suffix);
        push_item(&mut out, child, Ghost(items), Ghost(NumberItem::Literal(suffix@)));
    }
    out
}

/// The paragraph of a header or a footer that shows the page number.
pub fn page_number_para(numbering: Option<&PageNumbering>, style: &str, jc: Option<Jc>) -> (r:
    Block)
    ensures
        match flow_look(r) {
            FlowLook::Para { props, content } => {
                &&& props == (ParaLook {
                    style: Some(style@),
                    jc: Some(
                        match jc {
                            Some(j) => j,
                            None => Jc::Center,
                        },
                    ),
                    ..plain_para()
                })
                &&& are_number_items(
                    content,
                    page_number_items(
                        match numbering {
                            Some(n) => Some(*n),
                            None => None,
                        },
                    ),
                )
            },
            _ => false,
        },
{
    let mut props: ParaProps = ParaProps::default();
    props.style = Some(style.to_owned());
    props.jc = Some(
        match jc {
            Some(j) => j,
            None => Jc::Center,
        },
    );
    assert(props@.tabs =~= plain_para().tabs);
    if let Some(n) = numbering {
        if let PageNumbering::Pattern(pattern) = n {
            if pattern.pieces.len() >= 2 {
                let content: Vec<ParaChild> = pattern_children(n, pattern);
                return Block::Para(Para { props, content });
            }
        }
    }
    let mut content: Vec<ParaChild> = Vec::new();
    content.push(page_field(" PAGE ".to_owned()));
    Block::Para(Para { props, content })
}

} // verus!
