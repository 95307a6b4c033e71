//! The properties of tables, rows and cells.

use vstd::prelude::*;

use crate::dom::{Border, Cell, CellBorders, Row, TblProps, VMerge};
use crate::encode::section::{valign_name, valign_str};
use crate::text::{dec, dec_i64, dec_u64, hex, hex_rgb};
use crate::xml::{El, Elem, Node, Xml, el, nothing, open, put_elem, xmls};

verus! {

/// One edge of the borders that a table has by itself.
pub open spec fn edge_xml(name: Seq<char>) -> El {
    el(name).attr("w:val"@, "single"@).attr("w:sz"@, "4"@).attr("w:space"@, "0"@).attr(
        "w:color"@,
        "auto"@,
    )
}

/// A length in twips.
pub open spec fn twips_xml(name: Seq<char>, dxa: int) -> El {
    el(name).attr("w:w"@, dec(dxa)).attr("w:type"@, "dxa"@)
}

/// The properties of a table: its width, its offset from the text margin, a
/// visible line on every edge, and fixed column widths.
pub open spec fn tblpr_xml(props: TblProps) -> El {
    let e = el("w:tblPr"@).elem(
        match props.width_dxa {
            Some(width) => twips_xml("w:tblW"@, width as int),
            None => el("w:tblW"@).attr("w:w"@, "0"@).attr("w:type"@, "auto"@),
        },
    );
    let e = match props.ind_dxa {
        Some(ind) => e.elem(twips_xml("w:tblInd"@, ind as int)),
        None => e,
    };
    e.elem(
        el("w:tblBorders"@).elem(edge_xml("w:top"@)).elem(edge_xml("w:left"@)).elem(
            edge_xml("w:bottom"@),
        ).elem(edge_xml("w:right"@)).elem(edge_xml("w:insideH"@)).elem(edge_xml("w:insideV"@)),
    ).elem(el("w:tblLayout"@).attr("w:type"@, "fixed"@))
}

/// The column widths of a table.
pub open spec fn grid_xml(grid: Seq<i32>) -> El {
    el("w:tblGrid"@).all(
        grid.map_values(|col: i32| Xml::El(el("w:gridCol"@).attr("w:w"@, dec(col as int)))),
    )
}

/// The properties of a row, where it has any.
pub open spec fn trpr_xml(row: Row) -> Seq<Xml> {
    if row.header || row.cant_split || row.height is Some {
        let e = el("w:trPr"@);
        let e = match row.height {
            Some(h) => e.elem(
                el("w:trHeight"@).attr("w:val"@, dec(h.val as int)).attr(
                    "w:hRule"@,
                    if h.exact {
                        "exact"@
                    } else {
                        "atLeast"@
                    },
                ),
            ),
            None => e,
        };
        let e = if row.header {
            e.elem(el("w:tblHeader"@))
        } else {
            e
        };
        let e = if row.cant_split {
            e.elem(el("w:cantSplit"@))
        } else {
            e
        };
        seq![Xml::El(e)]
    } else {
        Seq::empty()
    }
}

/// One side of a cell's borders. A side without a line is turned off explicitly,
/// so that the table's own line does not show there.
pub open spec fn border_side_xml(name: Seq<char>, border: Option<Border>) -> El {
    match border {
        Some(b) => el(name).attr("w:val"@, "single"@).attr("w:sz"@, dec(b.sz as int)).attr(
            "w:space"@,
            "0"@,
        ).attr("w:color"@, hex_rgb(b.color)),
        None => el(name).attr("w:val"@, "nil"@),
    }
}

/// All four sides of a cell's borders.
pub open spec fn cell_borders_xml(b: CellBorders) -> El {
    el("w:tcBorders"@).elem(border_side_xml("w:top"@, b.top)).elem(
        border_side_xml("w:left"@, b.left),
    ).elem(border_side_xml("w:bottom"@, b.bottom)).elem(border_side_xml("w:right"@, b.right))
}

/// The properties of a cell.
pub open spec fn tcpr_xml(cell: Cell) -> El {
    let e = el("w:tcPr"@);
    let e = match cell.w_dxa {
        Some(width) => e.elem(twips_xml("w:tcW"@, width as int)),
        None => e,
    };
    let e = if cell.grid_span > 1 {
        e.elem(el("w:gridSpan"@).attr("w:val"@, dec(cell.grid_span as int)))
    } else {
        e
    };
    let e = match cell.v_merge {
        Some(VMerge::Restart) => e.elem(el("w:vMerge"@).attr("w:val"@, "restart"@)),
        Some(VMerge::Continue) => e.elem(el("w:vMerge"@).attr("w:val"@, "continue"@)),
        None => e,
    };
    let e = e.elem(cell_borders_xml(cell.borders));
    let e = match cell.shd_fill {
        Some(fill) => e.elem(
            el("w:shd"@).attr("w:val"@, "clear"@).attr("w:color"@, "auto"@).attr(
                "w:fill"@,
                hex_rgb(fill),
            ),
        ),
        None => e,
    };
    match cell.valign {
        Some(v) => e.elem(el("w:vAlign"@).attr("w:val"@, valign_name(v))),
        None => e,
    }
}

fn write_edge<'a>(name: &'static str) -> (r: Elem<'a>)
    ensures
        r@ == edge_xml(name@),
{
    open(name).attr("w:val", "single").attr("w:sz", "4").attr("w:space", "0").attr(
        "w:color",
        "auto",
    )
}

fn write_twips<'a>(name: &'static str, dxa: i32) -> (r: Elem<'a>)
    ensures
        r@ == twips_xml(name@, dxa as int),
{
    open(name).attr("w:w", dec_i64(dxa as i64).as_str()).attr("w:type", "dxa")
}

/// Builds the properties of a table.
pub fn write_tblpr<'a>(props: &TblProps) -> (r: Elem<'a>)
    ensures
        r@ == tblpr_xml(*props),
{
    let width: Elem<'a> = match props.width_dxa {
        Some(width) => write_twips("w:tblW", width),
        None => open("w:tblW").attr("w:w", "0").attr("w:type", "auto"),
    };
    let e: Elem<'a> = open("w:tblPr").elem(width);
    let e: Elem<'a> = match props.ind_dxa {
        Some(ind) => e.elem(write_twips("w:tblInd", ind)),
        None => e,
    };
    e.elem(
        open("w:tblBorders").elem(write_edge("w:top")).elem(write_edge("w:left")).elem(
            write_edge("w:bottom"),
        ).elem(write_edge("w:right")).elem(write_edge("w:insideH")).elem(
            write_edge("w:insideV"),
        ),
    ).elem(open("w:tblLayout").attr("w:type", "fixed"))
}

/// Builds the column widths of a table.
pub fn write_grid<'a>(grid: &Vec<i32>) -> (r: Elem<'a>)
    ensures
        r@ == grid_xml(grid@),
{
    let ghost col_xml = |col: i32| Xml::El(el("w:gridCol"@).attr("w:w"@, dec(col as int)));
    let mut cols: Vec<Node<'a>> = nothing();
    let mut i: usize = 0;
    assert(xmls(cols@) =~= grid@.take(0).map_values(col_xml));
    while i < grid.len()
        invariant
            i <= grid.len(),
            col_xml == (|col: i32| Xml::El(el("w:gridCol"@).attr("w:w"@, dec(col as int)))),
            xmls(cols@) == grid@.take(i as int).map_values(col_xml),
        decreases grid.len() - i,
    {
        put_elem(&mut cols, open("w:gridCol").attr("w:w", dec_i64(grid[i] as i64).as_str()));
        assert(xmls(cols@) =~= grid@.take(i + 1).map_values(col_xml));
        i = i + 1;
    }
    assert(grid@.take(i as int) =~= grid@);
    open("w:tblGrid").all(cols)
}

/// Builds the properties of a row.
pub fn write_trpr<'a>(row: &Row) -> (r: Vec<Node<'a>>)
    ensures
        xmls(r@) == trpr_xml(*row),
{
    let mut r: Vec<Node<'a>> = nothing();
    if row.header || row.cant_split || row.height.is_some() {
        let e: Elem<'a> = open("w:trPr");
        let e: Elem<'a> = match &row.height {
            Some(h) => {
                let rule: &str = if h.exact {
                    "exact"
                } else {
                    "atLeast"
                };
                e.elem(
                    open("w:trHeight").attr("w:val", dec_i64(h.val as i64).as_str()).attr(
                        "w:hRule",
                        rule,
                    ),
                )
            }
            None => e,
        };
        let e: Elem<'a> = if row.header {
            e.elem(open("w:tblHeader"))
        } else {
            e
        };
        let e: Elem<'a> = if row.cant_split {
            e.elem(open("w:cantSplit"))
        } else {
            e
        };
        put_elem(&mut r, e);
    }
    r
}

fn write_border_side<'a>(name: &'static str, border: &Option<Border>) -> (r: Elem<'a>)
    ensures
        r@ == border_side_xml(name@, *border),
{
    match border {
        Some(b) => open(name).attr("w:val", "single").attr(
            "w:sz",
            dec_u64(b.sz as u64).as_str(),
        ).attr("w:space", "0").attr("w:color", hex(b.color).as_str()),
        None => open(name).attr("w:val", "nil"),
    }
}

fn write_cell_borders<'a>(b: &CellBorders) -> (r: Elem<'a>)
    ensures
        r@ == cell_borders_xml(*b),
{
    open("w:tcBorders").elem(write_border_side("w:top", &b.top)).elem(
        write_border_side("w:left", &b.left),
    ).elem(write_border_side("w:bottom", &b.bottom)).elem(write_border_side("w:right", &b.right))
}

/// Builds the properties of a cell.
pub fn write_tcpr<'a>(cell: &Cell) -> (r: Elem<'a>)
    ensures
        r@ == tcpr_xml(*cell),
{
    let e: Elem<'a> = open("w:tcPr");
    let e: Elem<'a> = match cell.w_dxa {
        Some(width) => e.elem(write_twips("w:tcW", width)),
        None => e,
    };
    let e: Elem<'a> = if cell.grid_span > 1 {
        e.elem(open("w:gridSpan").attr("w:val", dec_u64(cell.grid_span as u64).as_str()))
    } else {
        e
    };
    let e: Elem<'a> = match cell.v_merge {
        Some(VMerge::Restart) => e.elem(open("w:vMerge").attr("w:val", "restart")),
        Some(VMerge::Continue) => e.elem(open("w:vMerge").attr("w:val", "continue")),
        None => e,
    };
    let e: Elem<'a> = e.elem(write_cell_borders(&cell.borders));
    let e: Elem<'a> = match cell.shd_fill {
        Some(fill) => e.elem(
            open("w:shd").attr("w:val", "clear").attr("w:color", "auto").attr(
                "w:fill",
                hex(fill).as_str(),
            ),
        ),
        None => e,
    };
    match cell.valign {
        Some(v) => e.elem(open("w:vAlign").attr("w:val", valign_str(v))),
        None => e,
    }
}

} // verus!
