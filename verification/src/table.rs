//! The row source adapter: it holds the input column set derived from the
//! data source's header, the output column set the loaded module declares,
//! and the name-based map between them, and shapes each cached raw row to
//! the output column set. Reading lines is the caller's business; the
//! adapter caches every line it is fed, so the source can be replayed.

use vstd::prelude::*;

verus! {

use crate::cell::{Cell, CellModel, coerce_cell, spec_coerce};
use crate::schema::{CellType, Column, WidthSpec};
use crate::text::{split_at_delim, split_line, trim_spec, trim_ws};

/// What one entry of the output-to-input map may say of the input columns:
/// `Some(j)` names the first input column called `name`, `None` says no
/// input column is.
pub open spec fn map_entry_ok(inputs: Seq<Column>, name: Seq<char>, e: Option<usize>) -> bool {
    match e {
        Some(j) => j < inputs.len() && inputs[j as int].name@ == name && forall|k: int|
            0 <= k < j ==> (#[trigger] inputs[k]).name@ != name,
        None => forall|k: int| 0 <= k < inputs.len() ==> (#[trigger] inputs[k]).name@ != name,
    }
}

/// The whole output-to-input map pairs each output column with the first
/// input column of the same name, if any.
pub open spec fn map_ok(inputs: Seq<Column>, outputs: Seq<Column>, map: Seq<Option<usize>>) -> bool {
    map.len() == outputs.len() && forall|o: int|
        0 <= o < outputs.len() ==> map_entry_ok(inputs, outputs[o].name@, #[trigger] map[o])
}

/// The output-to-input map is a function of the two column sets: any two
/// maps that pair each output column with its first name match are equal.
pub proof fn lemma_map_unique(
    inputs: Seq<Column>,
    outputs: Seq<Column>,
    m1: Seq<Option<usize>>,
    m2: Seq<Option<usize>>,
)
    requires
        map_ok(inputs, outputs, m1),
        map_ok(inputs, outputs, m2),
    ensures
        m1 == m2,
{
    assert forall|o: int| 0 <= o < outputs.len() implies m1[o] == m2[o] by {
        match (m1[o], m2[o]) {
            (Some(j1), Some(j2)) => {
                if j1 < j2 {
                    assert(inputs[j1 as int].name@ != outputs[o].name@);
                } else if j2 < j1 {
                    assert(inputs[j2 as int].name@ != outputs[o].name@);
                }
            },
            (Some(j1), None) => {
                assert(inputs[j1 as int].name@ != outputs[o].name@);
            },
            (None, Some(j2)) => {
                assert(inputs[j2 as int].name@ != outputs[o].name@);
            },
            (None, None) => {},
        }
    }
    assert(m1 =~= m2);
}

fn find_column(inputs: &Vec<Column>, name: &String) -> (r: Option<usize>)
    ensures
        map_entry_ok(inputs@, name@, r),
{
    let mut i: usize = 0;
    while i < inputs.len()
        invariant
            i <= inputs@.len(),
            forall|k: int| 0 <= k < i ==> (#[trigger] inputs@[k]).name@ != name@,
        decreases inputs@.len() - i,
    {
        if inputs[i].name == *name {
            return Some(i);
        }
        i = i + 1;
    }
    None
}

/// The input column set an untyped header line yields: one `Text` column
/// per delimited field, auto-sized, in field order.
pub open spec fn header_columns_ok(cols: Seq<Column>, header: Seq<char>, d: char) -> bool {
    let names = split_at_delim(trim_spec(header), d);
    cols.len() == names.len() && forall|i: int|
        0 <= i < cols.len() ==> {
            &&& (#[trigger] cols[i]).name@ == names[i]
            &&& cols[i].index == i
            &&& cols[i].cell_type == CellType::Text
            &&& cols[i].width == WidthSpec::Auto
        }
}

/// A raw line's fields shaped to exactly `n` entries: extra fields are cut,
/// missing ones filled with empty text.
pub open spec fn padded_fields(line: Seq<char>, d: char, n: nat) -> Seq<Seq<char>> {
    let f = split_at_delim(trim_spec(line), d);
    Seq::new(
        n,
        |i: int|
            if i < f.len() {
                f[i]
            } else {
                Seq::empty()
            },
    )
}

/// The row source adapter.
pub struct RowSource {
    pub delimiter: char,
    pub input_columns: Vec<Column>,
    pub output_columns: Vec<Column>,
    pub output_input_map: Vec<Option<usize>>,
    pub raw_cells: Vec<Vec<String>>,
    pub row_index: usize,
}

impl RowSource {
    /// The adapter's internal consistency: the map matches the column
    /// sets and every cached raw row has one field per input column.
    pub open spec fn wf(&self) -> bool {
        &&& map_ok(self.input_columns@, self.output_columns@, self.output_input_map@)
        &&& forall|r: int|
            0 <= r < self.raw_cells@.len() ==> (#[trigger] self.raw_cells@[r])@.len()
                == self.input_columns@.len()
        &&& self.row_index <= self.raw_cells@.len()
    }

    /// The cell shaped for output column `o` of cached row `r`: the raw
    /// field of the mapped input column coerced under the output column's
    /// type, or the empty cell if no input column matches.
    pub open spec fn spec_shaped_cell(&self, r: int, o: int) -> CellModel {
        match self.output_input_map@[o] {
            Some(j) => spec_coerce(
                self.output_columns@[o].cell_type,
                self.raw_cells@[r]@[j as int]@,
            ),
            None => CellModel::Empty,
        }
    }

    /// Cached row `r` shaped to the output column set.
    pub open spec fn spec_shaped_row(&self, r: int) -> Seq<CellModel> {
        Seq::new(self.output_columns@.len() as nat, |o: int| self.spec_shaped_cell(r, o))
    }

    /// Every cached row shaped to the output column set, in order.
    pub open spec fn spec_scan(&self) -> Seq<Seq<CellModel>> {
        Seq::new(self.raw_cells@.len() as nat, |r: int| self.spec_shaped_row(r))
    }

    /// Derive the input column set from the data source's header line.
    pub fn new(header_line: &str, delimiter: char) -> (t: RowSource)
        ensures
            t.wf(),
            t.delimiter == delimiter,
            header_columns_ok(t.input_columns@, header_line@, delimiter),
            t.output_columns@.len() == 0,
            t.raw_cells@.len() == 0,
            t.row_index == 0,
    {
        let trimmed = trim_ws(header_line);
        let names = split_line(trimmed.as_str(), delimiter);
        let mut cols: Vec<Column> = Vec::new();
        let mut i: usize = 0;
        while i < names.len()
            invariant
                i <= names@.len(),
                cols@.len() == i,
                forall|k: int|
                    0 <= k < i ==> {
                        &&& (#[trigger] cols@[k]).name@ == names@[k]@
                        &&& cols@[k].index == k
                        &&& cols@[k].cell_type == CellType::Text
                        &&& cols@[k].width == WidthSpec::Auto
                    },
            decreases names@.len() - i,
        {
            cols.push(Column::new(names[i].clone(), i, CellType::Text, WidthSpec::Auto));
            i = i + 1;
        }
        proof {
            assert(names@.map_values(|t: String| t@) == split_at_delim(trim_spec(header_line@),
            delimiter));
            assert forall|k: int| 0 <= k < cols@.len() implies (#[trigger] cols@[k]).name@
                == split_at_delim(trim_spec(header_line@), delimiter)[k] by {
                assert(names@.map_values(|t: String| t@)[k] == names@[k]@);
            }
        }
        RowSource {
            delimiter,
            input_columns: cols,
            output_columns: Vec::new(),
            output_input_map: Vec::new(),
            raw_cells: Vec::new(),
            row_index: 0,
        }
    }

    pub fn input_columns(&self) -> (r: &Vec<Column>)
        ensures
            r == &self.input_columns,
    {
        &self.input_columns
    }

    pub fn output_columns(&self) -> (r: &Vec<Column>)
        ensures
            r == &self.output_columns,
    {
        &self.output_columns
    }

    /// Declare a new output column set and rebuild the output-to-input
    /// map by exact name match, first match winning.
    pub fn set_output_columns(&mut self, cols: Vec<Column>)
        requires
            old(self).wf(),
        ensures
            final(self).wf(),
            final(self).output_columns == cols,
            final(self).input_columns == old(self).input_columns,
            final(self).raw_cells == old(self).raw_cells,
            final(self).row_index == old(self).row_index,
            final(self).delimiter == old(self).delimiter,
    {
        self.output_columns = cols;
        let mut map: Vec<Option<usize>> = Vec::new();
        let mut o: usize = 0;
        while o < self.output_columns.len()
            invariant
                o <= self.output_columns@.len(),
                map@.len() == o,
                forall|k: int|
                    0 <= k < o ==> map_entry_ok(
                        self.input_columns@,
                        self.output_columns@[k].name@,
                        #[trigger] map@[k],
                    ),
            decreases self.output_columns@.len() - o,
        {
            let e = find_column(&self.input_columns, &self.output_columns[o].name);
            map.push(e);
            o = o + 1;
        }
        self.output_input_map = map;
    }

    /// Whether the cache is exhausted, so the caller should fetch and
    /// feed another raw line before pulling the next row.
    pub fn wants_line(&self) -> (b: bool)
        ensures
            b == (self.row_index >= self.raw_cells@.len()),
    {
        self.row_index >= self.raw_cells.len()
    }

    /// Cache one raw line of the data source: trimmed, split at the
    /// delimiter, and shaped to one field per input column.
    pub fn feed_line(&mut self, line: &str)
        requires
            old(self).wf(),
        ensures
            final(self).wf(),
            final(self).raw_cells@.len() == old(self).raw_cells@.len() + 1,
            forall|r: int|
                0 <= r < old(self).raw_cells@.len() ==> final(self).raw_cells@[r] == old(
                    self,
                ).raw_cells@[r],
            final(self).raw_cells@.last()@.map_values(|s: String| s@) == padded_fields(
                line@,
                old(self).delimiter,
                old(self).input_columns@.len() as nat,
            ),
            final(self).input_columns == old(self).input_columns,
            final(self).output_columns == old(self).output_columns,
            final(self).output_input_map == old(self).output_input_map,
            final(self).row_index == old(self).row_index,
            final(self).delimiter == old(self).delimiter,
    {
        let trimmed = trim_ws(line);
        let fields = split_line(trimmed.as_str(), self.delimiter);
        let n = self.input_columns.len();
        let mut row: Vec<String> = Vec::new();
        let mut i: usize = 0;
        while i < n
            invariant
                i <= n,
                row@.len() == i,
                forall|k: int|
                    0 <= k < i ==> (#[trigger] row@[k])@ == padded_fields(
                        line@,
                        self.delimiter,
                        n as nat,
                    )[k],
                fields@.map_values(|t: String| t@) == split_at_delim(
                    trim_spec(line@),
                    self.delimiter,
                ),
            decreases n - i,
        {
            if i < fields.len() {
                row.push(fields[i].clone());
                proof {
                    assert(fields@.map_values(|t: String| t@)[i as int] == fields@[i as int]@);
                }
            } else {
                row.push(String::new());
            }
            i = i + 1;
        }
        self.raw_cells.push(row);
        proof {
            assert(final(self).raw_cells@.last()@.map_values(|s: String| s@) =~= padded_fields(
                line@,
                self.delimiter,
                n as nat,
            ));
        }
    }

    /// Shape the next cached row to the output column set, or report the
    /// cache exhausted.
    pub fn next(&mut self) -> (r: Option<Vec<Cell>>)
        requires
            old(self).wf(),
        ensures
            final(self).wf(),
            final(self).input_columns == old(self).input_columns,
            final(self).output_columns == old(self).output_columns,
            final(self).output_input_map == old(self).output_input_map,
            final(self).raw_cells == old(self).raw_cells,
            final(self).delimiter == old(self).delimiter,
            r is Some <==> old(self).row_index < old(self).raw_cells@.len(),
            r matches Some(row) ==> {
                &&& row@.map_values(|c: Cell| c@) == old(self).spec_shaped_row(
                    old(self).row_index as int,
                )
                &&& final(self).row_index == old(self).row_index + 1
            },
            r is None ==> final(self).row_index == old(self).row_index,
    {
        if self.row_index >= self.raw_cells.len() {
            return None;
        }
        let ri = self.row_index;
        let mut row: Vec<Cell> = Vec::new();
        let mut o: usize = 0;
        while o < self.output_columns.len()
            invariant
                self.wf(),
                o <= self.output_columns@.len(),
                ri < self.raw_cells@.len(),
                row@.len() == o,
                forall|k: int|
                    0 <= k < o ==> (#[trigger] row@[k])@ == self.spec_shaped_cell(ri as int, k),
            decreases self.output_columns@.len() - o,
        {
            let cell = match self.output_input_map[o] {
                Some(j) => {
                    let raw_row = &self.raw_cells[ri];
                    coerce_cell(self.output_columns[o].cell_type, raw_row[j].as_str())
                },
                None => Cell::Empty,
            };
            row.push(cell);
            o = o + 1;
        }
        self.row_index = ri + 1;
        proof {
            assert(row@.map_values(|c: Cell| c@) =~= old(self).spec_shaped_row(ri as int));
        }
        Some(row)
    }

    /// Reposition the scan at the first cached row; the cache, the column
    /// sets and the map stay as they are.
    pub fn reset(&mut self)
        requires
            old(self).wf(),
        ensures
            final(self).wf(),
            final(self).row_index == 0,
            final(self).input_columns == old(self).input_columns,
            final(self).output_columns == old(self).output_columns,
            final(self).output_input_map == old(self).output_input_map,
            final(self).raw_cells == old(self).raw_cells,
            final(self).delimiter == old(self).delimiter,
    {
        self.row_index = 0;
    }
}

/// Schema reconciliation: a shaped cell is non-empty only if some input
/// column bears the output column's exact name — the first such column —
/// and the raw text there is accepted under the output column's cell
/// type; this holds however the two column sets are ordered.
pub proof fn lemma_schema_reconciliation(t: &RowSource, r: int, o: int)
    requires
        t.wf(),
        0 <= r < t.raw_cells@.len(),
        0 <= o < t.output_columns@.len(),
    ensures
        t.spec_shaped_cell(r, o) != CellModel::Empty ==> exists|j: int|
            {
                &&& 0 <= j < t.input_columns@.len()
                &&& (#[trigger] t.input_columns@[j]).name@ == t.output_columns@[o].name@
                &&& t.spec_shaped_cell(r, o) == spec_coerce(
                    t.output_columns@[o].cell_type,
                    t.raw_cells@[r]@[j]@,
                )
            },
{
    if t.spec_shaped_cell(r, o) != CellModel::Empty {
        match t.output_input_map@[o] {
            Some(j) => {
                assert(map_entry_ok(t.input_columns@, t.output_columns@[o].name@,
                t.output_input_map@[o]));
                assert(0 <= j < t.input_columns@.len() && (t.input_columns@[j as int]).name@
                    == t.output_columns@[o].name@ && t.spec_shaped_cell(r, o) == spec_coerce(
                    t.output_columns@[o].cell_type,
                    t.raw_cells@[r]@[j as int]@,
                ));
            },
            None => {
                assert(false);
            },
        }
    }
}

/// Reset idempotence: what a full scan yields depends only on the cached
/// raw rows, the output column set and the map — none of which `reset`
/// touches — so two full scans with a `reset` between them yield the
/// same row sequence.
pub proof fn lemma_rescan_identical(a: &RowSource, b: &RowSource)
    requires
        a.output_columns@ == b.output_columns@,
        a.output_input_map@ == b.output_input_map@,
        a.raw_cells@ == b.raw_cells@,
    ensures
        a.spec_scan() == b.spec_scan(),
{
    assert forall|r: int| 0 <= r < a.raw_cells@.len() implies a.spec_shaped_row(r)
        == b.spec_shaped_row(r) by {
        assert forall|o: int| 0 <= o < a.output_columns@.len() implies a.spec_shaped_cell(r, o)
            == b.spec_shaped_cell(r, o) by {
        }
        assert(a.spec_shaped_row(r) =~= b.spec_shaped_row(r));
    }
    assert(a.spec_scan() =~= b.spec_scan());
}

} // verus!
