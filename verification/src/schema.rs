//! Typed column descriptors: the cell type tag and the display-width policy
//! that each column carries, shared by the host and the loaded module.

use vstd::prelude::*;

verus! {

/// The type tag of a column's cells, as both sides of the binary contract
/// understand it. The wire encoding is a small integer code.
#[derive(Copy, Clone, Debug, PartialEq, Eq, Structural)]
pub enum CellType {
    Text,
    Long,
    Time,
    Double,
}

impl CellType {
    /// The integer code this tag takes in the binary contract.
    pub fn code(&self) -> (c: u8)
        ensures
            c == self.spec_code(),
    {
        match *self {
            CellType::Text => 0,
            CellType::Long => 1,
            CellType::Time => 2,
            CellType::Double => 3,
        }
    }

    pub open spec fn spec_code(self) -> u8 {
        match self {
            CellType::Text => 0,
            CellType::Long => 1,
            CellType::Time => 2,
            CellType::Double => 3,
        }
    }

    /// Decode a type tag from its integer code; codes outside the contract
    /// are rejected.
    pub fn from_code(c: u8) -> (t: Option<CellType>)
        ensures
            t matches Some(tt) ==> tt.spec_code() == c,
            t is None <==> c > 3,
    {
        match c {
            0 => Some(CellType::Text),
            1 => Some(CellType::Long),
            2 => Some(CellType::Time),
            3 => Some(CellType::Double),
            _ => None,
        }
    }

    /// The upper-case keyword for this tag, as it appears in the generated
    /// column-declaration block of the stub source.
    pub fn upper_str(self: &Self) -> (r: &'static str)
        ensures
            r@ == self.spec_upper_str(),
    {
        proof {
            reveal_strlit("TEXT");
            reveal_strlit("LONG");
            reveal_strlit("TIME");
            reveal_strlit("DOUBLE");
        }
        match *self {
            CellType::Text => "TEXT",
            CellType::Long => "LONG",
            CellType::Time => "TIME",
            CellType::Double => "DOUBLE",
        }
    }

    pub open spec fn spec_upper_str(self) -> Seq<char> {
        match self {
            CellType::Text => seq!['T', 'E', 'X', 'T'],
            CellType::Long => seq!['L', 'O', 'N', 'G'],
            CellType::Time => seq!['T', 'I', 'M', 'E'],
            CellType::Double => seq!['D', 'O', 'U', 'B', 'L', 'E'],
        }
    }
}

/// A column's display-width policy. On the wire it is a signed 16-bit
/// value: negative marks a hidden column, zero an auto-sized one, and a
/// positive value a fixed width.
#[derive(Copy, Clone, Debug, PartialEq, Eq, Structural)]
pub enum WidthSpec {
    /// as wide as the widest value seen so far, the column name included
    Auto,
    /// skipped entirely by the renderer
    Hidden,
    /// always this many character positions
    Fixed(u16),
}

pub open spec fn spec_width_from_raw(w: int) -> WidthSpec {
    if w < 0 {
        WidthSpec::Hidden
    } else if w == 0 {
        WidthSpec::Auto
    } else {
        WidthSpec::Fixed(w as u16)
    }
}

impl WidthSpec {
    /// Decode the wire form of a width policy.
    pub fn from_raw(w: i16) -> (r: WidthSpec)
        ensures
            r == spec_width_from_raw(w as int),
    {
        if w < 0 {
            WidthSpec::Hidden
        } else if w == 0 {
            WidthSpec::Auto
        } else {
            WidthSpec::Fixed(w as u16)
        }
    }
}

/// One column descriptor: a name, the position it holds in its column
/// set, the type its cells carry, and its display-width policy.
#[derive(Debug, Clone, PartialEq, Eq)]
pub struct Column {
    pub name: String,
    pub index: usize,
    pub cell_type: CellType,
    pub width: WidthSpec,
}

impl Column {
    pub fn new(name: String, index: usize, cell_type: CellType, width: WidthSpec) -> (c: Column)
        ensures
            c.name == name,
            c.index == index,
            c.cell_type == cell_type,
            c.width == width,
    {
        Column { name, index, cell_type, width }
    }
}

} // verus!
