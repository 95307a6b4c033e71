//! Complex fields.

use vstd::prelude::*;

use crate::dom::{FieldDisplay, FieldMode};
use crate::xml::{El, Elem, Node, Xml, el, nothing, open, put_elem, xmls};

verus! {

/// A run of a field. The runs of a hidden field are hidden.
pub open spec fn field_run(display: FieldDisplay) -> El {
    if display == FieldDisplay::Hidden {
        el("w:r"@).elem(el("w:rPr"@).elem(el("w:vanish"@)))
    } else {
        el("w:r"@)
    }
}

/// A mark of a field.
pub open spec fn field_char(kind: Seq<char>) -> El {
    el("w:fldChar"@).attr("w:fldCharType"@, kind)
}

/// Text whose white space is kept.
pub open spec fn preserved(name: Seq<char>, text: Seq<char>) -> El {
    el(name).attr("xml:space"@, "preserve"@).text(text)
}

/// The start of a field: its first mark, locked where the exporter owns the
/// value, its instruction, and the mark before its result.
pub open spec fn field_begin(
    instr: Seq<char>,
    mode: FieldMode,
    display: FieldDisplay,
) -> Seq<Xml> {
    let begin = if mode == FieldMode::Static {
        field_char("begin"@).attr("w:fldLock"@, "true"@)
    } else {
        field_char("begin"@)
    };
    seq![
        Xml::El(field_run(display).elem(begin)),
        Xml::El(field_run(display).elem(preserved("w:instrText"@, instr))),
        Xml::El(field_run(display).elem(field_char("separate"@))),
    ]
}

/// The result of a hidden field: a run that consumers keep when they compute the
/// field, with a zero-width space so that it is not dropped as empty.
pub open spec fn hidden_result() -> Seq<Xml> {
    seq![
        Xml::El(field_run(FieldDisplay::Hidden).elem(preserved("w:t"@, "\u{200b}"@))),
    ]
}

/// The end of a field.
pub open spec fn field_end(display: FieldDisplay) -> Seq<Xml> {
    seq![Xml::El(field_run(display).elem(field_char("end"@)))]
}

fn write_field_run<'a>(display: FieldDisplay) -> (r: Elem<'a>)
    ensures
        r@ == field_run(display),
{
    if display == FieldDisplay::Hidden {
        open("w:r").elem(open("w:rPr").elem(open("w:vanish")))
    } else {
        open("w:r")
    }
}

fn write_field_char<'a>(kind: &str) -> (r: Elem<'a>)
    ensures
        r@ == field_char(kind@),
{
    open("w:fldChar").attr("w:fldCharType", kind)
}

/// Builds text whose white space is kept.
pub fn write_preserved<'a>(name: &'static str, text: &str) -> (r: Elem<'a>)
    ensures
        r@ == preserved(name@, text@),
{
    open(name).attr("xml:space", "preserve").text(text)
}

/// Builds the start of a field.
pub fn write_field_begin<'a>(instr: &str, mode: FieldMode, display: FieldDisplay) -> (r: Vec<
    Node<'a>,
>)
    ensures
        xmls(r@) == field_begin(instr@, mode, display),
{
    let mut r: Vec<Node<'a>> = nothing();
    let begin: Elem<'a> = if mode.locked() {
        write_field_char("begin").attr("w:fldLock", "true")
    } else {
        write_field_char("begin")
    };
    put_elem(&mut r, write_field_run(display).elem(begin));
    put_elem(&mut r, write_field_run(display).elem(write_preserved("w:instrText", instr)));
    put_elem(&mut r, write_field_run(display).elem(write_field_char("separate")));
    r
}

/// Builds the result of a hidden field.
pub fn write_hidden_result<'a>() -> (r: Vec<Node<'a>>)
    ensures
        xmls(r@) == hidden_result(),
{
    let mut r: Vec<Node<'a>> = nothing();
    put_elem(&mut r, write_field_run(FieldDisplay::Hidden).elem(write_preserved("w:t", "\u{200b}")));
    r
}

/// Builds the end of a field.
pub fn write_field_end<'a>(display: FieldDisplay) -> (r: Vec<Node<'a>>)
    ensures
        xmls(r@) == field_end(display),
{
    let mut r: Vec<Node<'a>> = nothing();
    put_elem(&mut r, write_field_run(display).elem(write_field_char("end")));
    r
}

} // verus!
