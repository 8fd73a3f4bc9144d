//! The tagged cell value that carries data of heterogeneous type between
//! the row source, the loaded module and the grid renderer, together with
//! the coercion from raw text and the rendering back to text.

use vstd::prelude::*;

verus! {

use crate::num::{
    i64_string,
    i64_text,
    int_literal_val,
    is_float_literal,
    is_int_literal,
    parse_i64,
    check_float_literal,
};
use crate::schema::CellType;

/// One cell of a row. `Empty` marks "no value"; the other variants carry
/// the payload their tag names. A `Double` cell carries the accepted
/// floating literal text — the host only ever displays it, and the binary
/// value lives solely at the marshaling edge outside this crate.
#[derive(Debug, Clone, PartialEq, Eq)]
pub enum Cell {
    Empty,
    Text(String),
    Long(i64),
    Time(i64),
    Double(String),
}

/// The mathematical shape of a cell.
pub ghost enum CellModel {
    Empty,
    Text(Seq<char>),
    Long(int),
    Time(int),
    Double(Seq<char>),
}

impl View for Cell {
    type V = CellModel;

    open spec fn view(&self) -> CellModel {
        match self {
            Cell::Empty => CellModel::Empty,
            Cell::Text(s) => CellModel::Text(s@),
            Cell::Long(n) => CellModel::Long(*n as int),
            Cell::Time(n) => CellModel::Time(*n as int),
            Cell::Double(s) => CellModel::Double(s@),
        }
    }
}

/// What coercing the raw text `raw` under the type tag `t` yields: text
/// is taken as it stands, numeric tags demand a literal of their kind,
/// and anything that does not parse yields the empty cell.
pub open spec fn spec_coerce(t: CellType, raw: Seq<char>) -> CellModel {
    match t {
        CellType::Text => CellModel::Text(raw),
        CellType::Long => if is_int_literal(raw) && i64::MIN <= int_literal_val(raw) <= i64::MAX {
            CellModel::Long(int_literal_val(raw))
        } else {
            CellModel::Empty
        },
        CellType::Time => if is_int_literal(raw) && i64::MIN <= int_literal_val(raw) <= i64::MAX {
            CellModel::Time(int_literal_val(raw))
        } else {
            CellModel::Empty
        },
        CellType::Double => if is_float_literal(raw) {
            CellModel::Double(raw)
        } else {
            CellModel::Empty
        },
    }
}

/// Coerce one raw text field under a column's type tag. A field that does
/// not parse yields the empty cell, never an error.
pub fn coerce_cell(t: CellType, raw: &str) -> (c: Cell)
    ensures
        c@ == spec_coerce(t, raw@),
{
    match t {
        CellType::Text => Cell::Text(raw.to_owned()),
        CellType::Long => match parse_i64(raw) {
            Some(v) => Cell::Long(v),
            None => Cell::Empty,
        },
        CellType::Time => match parse_i64(raw) {
            Some(v) => Cell::Time(v),
            None => Cell::Empty,
        },
        CellType::Double => if check_float_literal(raw) {
            Cell::Double(raw.to_owned())
        } else {
            Cell::Empty
        },
    }
}

/// The text a cell shows in the grid: the empty string for an empty cell,
/// the payload text for `Text` and `Double`, the decimal rendering for
/// `Long` and `Time`.
pub open spec fn spec_cell_text(m: CellModel) -> Seq<char> {
    match m {
        CellModel::Empty => Seq::empty(),
        CellModel::Text(s) => s,
        CellModel::Long(n) => i64_text(n),
        CellModel::Time(n) => i64_text(n),
        CellModel::Double(s) => s,
    }
}

/// Render one cell into the text the grid shows for it.
pub fn cell_text(c: &Cell) -> (r: String)
    ensures
        r@ == spec_cell_text(c@),
{
    match c {
        Cell::Empty => String::new(),
        Cell::Text(s) => s.clone(),
        Cell::Long(n) => i64_string(*n),
        Cell::Time(n) => i64_string(*n),
        Cell::Double(s) => s.clone(),
    }
}

} // verus!
