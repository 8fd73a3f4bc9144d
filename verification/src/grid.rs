//! The grid renderer: it accumulates column-aligned textual output, one
//! pipe-delimited right-aligned line per data row, under a header and a
//! dashed separator, enforces the module-declared row cap, and tracks the
//! auto width of each column as the widest text it has shown there.

use vstd::prelude::*;

verus! {

use crate::cell::{Cell, spec_cell_text, cell_text};
use crate::num::{dec_digits, push_decimal};
use crate::schema::{Column, WidthSpec};
use crate::text::{pad_to, push_char, push_padded, push_run, repeat_char};

/// How a grid step asks the host to nudge the external viewer: forced
/// refreshes bypass the rate limiter, limited ones go through it, and a
/// silent step asks for none.
#[derive(Copy, Clone, Debug, PartialEq, Eq, Structural)]
pub enum Notify {
    Forced,
    Limited,
    Silent,
}

/// What one `grid` call produced: the text to append to the output sink,
/// whether the module must stop handing rows in, and the viewer nudge.
pub struct GridStep {
    pub text: String,
    pub stop: bool,
    pub notify: Notify,
}

/// A column the renderer draws at all.
pub open spec fn visible(c: Column) -> bool {
    !(c.width is Hidden)
}

/// The width a visible column resolves to against its tracked auto width.
pub open spec fn resolved_width(c: Column, auto: nat) -> nat {
    match c.width {
        WidthSpec::Auto => auto,
        WidthSpec::Hidden => 0,
        WidthSpec::Fixed(n) => n as nat,
    }
}

pub open spec fn col_names(cols: Seq<Column>) -> Seq<Seq<char>> {
    cols.map_values(|c: Column| c.name@)
}

pub open spec fn nat_autos(v: Seq<usize>) -> Seq<nat> {
    v.map_values(|x: usize| x as nat)
}

/// One output line from column `i` on: a `| ` text-padded ` ` segment per
/// visible column, closed by `|` and a line break.
pub open spec fn cells_line_from(
    cols: Seq<Column>,
    autos: Seq<nat>,
    texts: Seq<Seq<char>>,
    i: int,
) -> Seq<char>
    decreases cols.len() - i when 0 <= i <= cols.len()
{
    if i >= cols.len() {
        seq!['|', '\n']
    } else if visible(cols[i]) {
        seq!['|', ' '] + pad_to(texts[i], resolved_width(cols[i], autos[i])) + seq![' ']
            + cells_line_from(cols, autos, texts, i + 1)
    } else {
        cells_line_from(cols, autos, texts, i + 1)
    }
}

pub open spec fn cells_line(cols: Seq<Column>, autos: Seq<nat>, texts: Seq<Seq<char>>) -> Seq<
    char,
> {
    cells_line_from(cols, autos, texts, 0)
}

/// The separator under the header: per visible column a `+` and dashes
/// two wider than the column, closed by `+` and a line break.
pub open spec fn sep_line_from(cols: Seq<Column>, autos: Seq<nat>, i: int) -> Seq<char>
    decreases cols.len() - i when 0 <= i <= cols.len()
{
    if i >= cols.len() {
        seq!['+', '\n']
    } else if visible(cols[i]) {
        seq!['+'] + repeat_char('-', resolved_width(cols[i], autos[i]) + 2) + sep_line_from(
            cols,
            autos,
            i + 1,
        )
    } else {
        sep_line_from(cols, autos, i + 1)
    }
}

pub open spec fn sep_line(cols: Seq<Column>, autos: Seq<nat>) -> Seq<char> {
    sep_line_from(cols, autos, 0)
}

/// The auto widths after drawing one line: each visible column's entry
/// grows to the width of the text just shown, and no entry ever shrinks.
pub open spec fn widths_after(cols: Seq<Column>, autos: Seq<nat>, texts: Seq<Seq<char>>) -> Seq<
    nat,
> {
    Seq::new(
        autos.len(),
        |k: int|
            if k < cols.len() && visible(cols[k]) && texts[k].len() > autos[k] {
                texts[k].len()
            } else {
                autos[k]
            },
    )
}

/// The tracked auto widths brought up to at least one entry per column;
/// new entries start at zero.
pub open spec fn resize_autos(autos: Seq<nat>, n: nat) -> Seq<nat> {
    if autos.len() >= n {
        autos
    } else {
        Seq::new(
            n,
            |k: int|
                if k < autos.len() {
                    autos[k]
                } else {
                    0
                },
        )
    }
}

/// The notice the renderer emits when the row cap is reached.
pub open spec fn limit_text(n: nat) -> Seq<char> {
    repeat_char('-', 6) + seq!['\n', 'H', 'i', 't', ' ', 'l', 'i', 'm', 'i', 't', ' ', 'o', 'f', ' ']
        + dec_digits(n) + seq![' ', 'r', 'o', 'w', 's', '\n']
}

/// The auto widths once the header and separator of a fresh run have
/// been drawn; on a later call they are left as they are.
pub open spec fn autos_after_header(rows: nat, cols: Seq<Column>, autos0: Seq<nat>) -> Seq<nat> {
    if rows == 0 {
        widths_after(cols, autos0, col_names(cols))
    } else {
        autos0
    }
}

/// The text one `grid` call appends: on a fresh run the header and the
/// separator first; then either the row-cap notice (exactly when the cap
/// is hit), nothing (past the cap), or the data row's line.
pub open spec fn spec_grid_text(
    rows: nat,
    limit: nat,
    cols: Seq<Column>,
    autos0: Seq<nat>,
    texts: Seq<Seq<char>>,
) -> Seq<char> {
    let a1 = autos_after_header(rows, cols, autos0);
    let pre = if rows == 0 {
        cells_line(cols, autos0, col_names(cols)) + sep_line(cols, a1)
    } else {
        Seq::<char>::empty()
    };
    if rows >= limit {
        if rows == limit {
            pre + limit_text(limit)
        } else {
            pre
        }
    } else {
        pre + cells_line(cols, a1, texts)
    }
}

/// The tracked auto widths after one `grid` call.
pub open spec fn spec_grid_autos(
    rows: nat,
    limit: nat,
    cols: Seq<Column>,
    autos0: Seq<nat>,
    texts: Seq<Seq<char>>,
) -> Seq<nat> {
    let a1 = autos_after_header(rows, cols, autos0);
    if rows >= limit {
        a1
    } else {
        widths_after(cols, a1, texts)
    }
}

/// The data-row count after one `grid` call: it grows only while under
/// the cap.
pub open spec fn spec_grid_rows(rows: nat, limit: nat) -> nat {
    if rows >= limit {
        rows
    } else {
        rows + 1
    }
}

/// Whether a `grid` call tells the module to stop handing rows in.
pub open spec fn spec_grid_stop(rows: nat, limit: nat) -> bool {
    rows >= limit
}

/// The viewer nudge of one `grid` call: forced on the header/first-row
/// path and when the cap is hit, rate-limited on an ordinary data row.
pub open spec fn spec_grid_notify(rows: nat, limit: nat) -> Notify {
    if rows >= limit {
        if rows == limit {
            Notify::Forced
        } else {
            Notify::Silent
        }
    } else if rows == 0 {
        Notify::Forced
    } else {
        Notify::Limited
    }
}

/// Width monotonicity: no column's tracked auto width ever shrinks
/// across a grid step, so the width resolved for an auto-sized column
/// after row `n` is at least the one resolved after row `n - 1`.
pub proof fn lemma_width_monotone(
    rows: nat,
    limit: nat,
    cols: Seq<Column>,
    autos0: Seq<nat>,
    texts: Seq<Seq<char>>,
    k: int,
)
    requires
        0 <= k < autos0.len(),
    ensures
        spec_grid_autos(rows, limit, cols, autos0, texts).len() == autos0.len(),
        autos0[k] <= spec_grid_autos(rows, limit, cols, autos0, texts)[k],
{
}

/// The data-row count a run has reached after `n` grid calls from a
/// fresh start under cap `limit`.
pub open spec fn rows_after(limit: nat, n: nat) -> nat
    decreases n,
{
    if n == 0 {
        0
    } else {
        spec_grid_rows(rows_after(limit, (n - 1) as nat), limit)
    }
}

/// Row cap: in a fresh run, each of the first `limit` grid calls draws a
/// data row and does not stop, so exactly `limit` data rows are drawn
/// before the cap is hit; the call after them stops.
pub proof fn lemma_row_cap(limit: nat, n: nat)
    ensures
        n <= limit ==> rows_after(limit, n) == n,
        n < limit ==> !spec_grid_stop(rows_after(limit, n), limit),
        n == limit ==> spec_grid_stop(rows_after(limit, n), limit),
    decreases n,
{
    if n > 0 {
        lemma_row_cap(limit, (n - 1) as nat);
    }
}

/// The call that hits the cap emits exactly the limit notice: past the
/// first call of a run, nothing precedes it in that call's text.
pub proof fn lemma_row_cap_notice(
    limit: nat,
    cols: Seq<Column>,
    autos0: Seq<nat>,
    texts: Seq<Seq<char>>,
)
    requires
        limit > 0,
    ensures
        spec_grid_text(limit, limit, cols, autos0, texts) == limit_text(limit),
{
    assert(Seq::<char>::empty() + limit_text(limit) =~= limit_text(limit));
}

fn push_cells_line(out: &mut String, columns: &Vec<Column>, autos: &Vec<usize>, texts: &Vec<String>)
    requires
        autos@.len() >= columns@.len(),
        texts@.len() == columns@.len(),
    ensures
        final(out)@ == old(out)@ + cells_line(
            columns@,
            nat_autos(autos@),
            texts@.map_values(|t: String| t@),
        ),
{
    let ghost na = nat_autos(autos@);
    let ghost tv = texts@.map_values(|t: String| t@);
    let mut i: usize = 0;
    while i < columns.len()
        invariant
            i <= columns@.len(),
            autos@.len() >= columns@.len(),
            texts@.len() == columns@.len(),
            na == nat_autos(autos@),
            tv == texts@.map_values(|t: String| t@),
            out@ + cells_line_from(columns@, na, tv, i as int) == old(out)@ + cells_line_from(
                columns@,
                na,
                tv,
                0,
            ),
        decreases columns@.len() - i,
    {
        let ghost pre = out@;
        let ghost seg = seq!['|', ' '] + pad_to(
            tv[i as int],
            resolved_width(columns@[i as int], na[i as int]),
        ) + seq![' '];
        let w_opt: Option<usize> = match columns[i].width {
            WidthSpec::Auto => Some(autos[i]),
            WidthSpec::Hidden => None,
            WidthSpec::Fixed(n) => Some(n as usize),
        };
        match w_opt {
            Some(w) => {
                proof {
                    assert(w as nat == resolved_width(columns@[i as int], na[i as int]));
                }
                push_char(out, '|');
                push_char(out, ' ');
                push_padded(out, texts[i].as_str(), w);
                push_char(out, ' ');
                proof {
                    assert(tv[i as int] == texts@[i as int]@);
                    assert(out@ =~= pre + seg);
                    assert(cells_line_from(columns@, na, tv, i as int) == seg + cells_line_from(
                        columns@,
                        na,
                        tv,
                        i + 1,
                    ));
                    assert(pre + seg + cells_line_from(columns@, na, tv, i + 1) =~= pre
                        + (seg + cells_line_from(columns@, na, tv, i + 1)));
                }
            },
            None => {
                proof {
                    assert(cells_line_from(columns@, na, tv, i as int) == cells_line_from(
                        columns@,
                        na,
                        tv,
                        i + 1,
                    ));
                }
            },
        }
        i = i + 1;
    }
    push_char(out, '|');
    push_char(out, '\n');
    proof {
        assert(cells_line_from(columns@, na, tv, columns@.len() as int) == seq!['|', '\n']);
        assert(out@ =~= old(out)@ + cells_line_from(columns@, na, tv, 0));
    }
}

fn push_sep_line(out: &mut String, columns: &Vec<Column>, autos: &Vec<usize>)
    requires
        autos@.len() >= columns@.len(),
    ensures
        final(out)@ == old(out)@ + sep_line(columns@, nat_autos(autos@)),
{
    let ghost na = nat_autos(autos@);
    let mut i: usize = 0;
    while i < columns.len()
        invariant
            i <= columns@.len(),
            autos@.len() >= columns@.len(),
            na == nat_autos(autos@),
            out@ + sep_line_from(columns@, na, i as int) == old(out)@ + sep_line_from(
                columns@,
                na,
                0,
            ),
        decreases columns@.len() - i,
    {
        let ghost pre = out@;
        let ghost seg = seq!['+'] + repeat_char(
            '-',
            resolved_width(columns@[i as int], na[i as int]) + 2,
        );
        let w_opt: Option<usize> = match columns[i].width {
            WidthSpec::Auto => Some(autos[i]),
            WidthSpec::Hidden => None,
            WidthSpec::Fixed(n) => Some(n as usize),
        };
        match w_opt {
            Some(w) => {
                proof {
                    assert(w as nat == resolved_width(columns@[i as int], na[i as int]));
                }
                push_char(out, '+');
                push_run(out, '-', w);
                push_char(out, '-');
                push_char(out, '-');
                proof {
                    assert(repeat_char('-', w as nat + 2) == repeat_char('-', w as nat + 1).push(
                        '-',
                    ));
                    assert(repeat_char('-', w as nat + 1) == repeat_char('-', w as nat).push('-'));
                    assert(out@ =~= pre + seg);
                    assert(sep_line_from(columns@, na, i as int) == seg + sep_line_from(
                        columns@,
                        na,
                        i + 1,
                    ));
                    assert(pre + seg + sep_line_from(columns@, na, i + 1) =~= pre + (seg
                        + sep_line_from(columns@, na, i + 1)));
                }
            },
            None => {
                proof {
                    assert(sep_line_from(columns@, na, i as int) == sep_line_from(
                        columns@,
                        na,
                        i + 1,
                    ));
                }
            },
        }
        i = i + 1;
    }
    push_char(out, '+');
    push_char(out, '\n');
    proof {
        assert(sep_line_from(columns@, na, columns@.len() as int) == seq!['+', '\n']);
        assert(out@ =~= old(out)@ + sep_line_from(columns@, na, 0));
    }
}

fn update_widths(autos: &mut Vec<usize>, columns: &Vec<Column>, texts: &Vec<String>)
    requires
        old(autos)@.len() >= columns@.len(),
        texts@.len() == columns@.len(),
    ensures
        final(autos)@.len() == old(autos)@.len(),
        nat_autos(final(autos)@) == widths_after(
            columns@,
            nat_autos(old(autos)@),
            texts@.map_values(|t: String| t@),
        ),
        forall|k: int|
            0 <= k < old(autos)@.len() ==> old(autos)@[k] <= #[trigger] final(autos)@[k],
{
    let ghost na0 = nat_autos(old(autos)@);
    let ghost tv = texts@.map_values(|t: String| t@);
    let ghost target = widths_after(columns@, na0, tv);
    let mut i: usize = 0;
    while i < columns.len()
        invariant
            i <= columns@.len(),
            autos@.len() == old(autos)@.len() >= columns@.len(),
            texts@.len() == columns@.len(),
            na0 == nat_autos(old(autos)@),
            tv == texts@.map_values(|t: String| t@),
            target == widths_after(columns@, na0, tv),
            target.len() == autos@.len(),
            forall|k: int| 0 <= k < i ==> nat_autos(autos@)[k] == target[k],
            forall|k: int| i <= k < autos@.len() ==> autos@[k] == old(autos)@[k],
            forall|k: int| 0 <= k < autos@.len() ==> old(autos)@[k] <= #[trigger] autos@[k],
        decreases columns@.len() - i,
    {
        let hidden = match columns[i].width {
            WidthSpec::Hidden => true,
            _ => false,
        };
        if !hidden {
            let l = texts[i].unicode_len();
            if l > autos[i] {
                autos[i] = l;
            }
            proof {
                assert(tv[i as int] == texts@[i as int]@);
            }
        }
        i = i + 1;
    }
    proof {
        assert forall|k: int| 0 <= k < autos@.len() implies nat_autos(autos@)[k] == target[k] by {
            if k >= columns@.len() {
                assert(autos@[k] == old(autos)@[k]);
            }
        }
        assert(nat_autos(autos@) =~= target);
    }
}

/// The grid renderer's state: the data rows shown in the current run, the
/// module-declared cap, and the per-column auto widths, which persist
/// across runs.
pub struct GridRenderer {
    pub rows: usize,
    pub limit: usize,
    pub auto_widths: Vec<usize>,
}

impl GridRenderer {
    /// A fresh renderer: no rows shown, no widths tracked, and the
    /// default row cap a module is assumed to carry until it declares one.
    pub fn new() -> (g: GridRenderer)
        ensures
            g.rows == 0,
            g.limit == 20,
            g.auto_widths@.len() == 0,
    {
        GridRenderer { rows: 0, limit: 20, auto_widths: Vec::new() }
    }

    /// Adopt the row-display cap the loaded module declares.
    pub fn set_limit(&mut self, limit: usize)
        ensures
            final(self).limit == limit,
            final(self).rows == old(self).rows,
            final(self).auto_widths == old(self).auto_widths,
    {
        self.limit = limit;
    }

    /// Start a fresh run: the row counter returns to zero; the tracked
    /// widths persist across runs.
    pub fn reset_rows(&mut self)
        ensures
            final(self).rows == 0,
            final(self).limit == old(self).limit,
            final(self).auto_widths == old(self).auto_widths,
    {
        self.rows = 0;
    }

    /// Draw one marshaled row. The first call of a run draws the header
    /// and separator first; a call at the cap draws the notice instead of
    /// the row and signals stop; the auto widths never shrink.
    pub fn grid(&mut self, columns: &Vec<Column>, row: &Vec<Cell>) -> (out: GridStep)
        requires
            row@.len() == columns@.len(),
        ensures
            final(self).limit == old(self).limit,
            final(self).rows as nat == spec_grid_rows(
                old(self).rows as nat,
                old(self).limit as nat,
            ),
            out.stop == spec_grid_stop(old(self).rows as nat, old(self).limit as nat),
            out.notify == spec_grid_notify(old(self).rows as nat, old(self).limit as nat),
            out.text@ == spec_grid_text(
                old(self).rows as nat,
                old(self).limit as nat,
                columns@,
                resize_autos(nat_autos(old(self).auto_widths@), columns@.len() as nat),
                row@.map_values(|c: Cell| spec_cell_text(c@)),
            ),
            nat_autos(final(self).auto_widths@) == spec_grid_autos(
                old(self).rows as nat,
                old(self).limit as nat,
                columns@,
                resize_autos(nat_autos(old(self).auto_widths@), columns@.len() as nat),
                row@.map_values(|c: Cell| spec_cell_text(c@)),
            ),
            final(self).auto_widths@.len() >= old(self).auto_widths@.len(),
            forall|k: int|
                0 <= k < old(self).auto_widths@.len() ==> old(self).auto_widths@[k]
                    <= #[trigger] final(self).auto_widths@[k],
    {
        let ghost tv = row@.map_values(|c: Cell| spec_cell_text(c@));
        // bring the width table up to one entry per column
        while self.auto_widths.len() < columns.len()
            invariant
                forall|k: int|
                    0 <= k < old(self).auto_widths@.len() ==> #[trigger] self.auto_widths@[k]
                        == old(self).auto_widths@[k],
                self.auto_widths@.len() >= old(self).auto_widths@.len(),
                old(self).auto_widths@.len() < columns@.len() ==> self.auto_widths@.len()
                    <= columns@.len(),
                old(self).auto_widths@.len() >= columns@.len() ==> self.auto_widths@.len() == old(
                    self,
                ).auto_widths@.len(),
                forall|k: int|
                    old(self).auto_widths@.len() <= k < self.auto_widths@.len()
                        ==> #[trigger] self.auto_widths@[k] == 0,
                self.rows == old(self).rows,
                self.limit == old(self).limit,
            decreases columns@.len() - self.auto_widths@.len(),
        {
            self.auto_widths.push(0);
        }
        let ghost autos0 = nat_autos(self.auto_widths@);
        proof {
            assert(autos0 =~= resize_autos(
                nat_autos(old(self).auto_widths@),
                columns@.len() as nat,
            ));
        }
        let mut text = String::new();
        let first = self.rows == 0;
        if first {
            // header row: the column names, then the separator
            let mut names: Vec<String> = Vec::new();
            let mut i: usize = 0;
            while i < columns.len()
                invariant
                    i <= columns@.len(),
                    names@.len() == i,
                    forall|k: int|
                        0 <= k < i ==> (#[trigger] names@[k])@ == columns@[k].name@,
                decreases columns@.len() - i,
            {
                names.push(columns[i].name.clone());
                i = i + 1;
            }
            proof {
                assert(names@.map_values(|t: String| t@) =~= col_names(columns@));
            }
            push_cells_line(&mut text, columns, &self.auto_widths, &names);
            update_widths(&mut self.auto_widths, columns, &names);
            push_sep_line(&mut text, columns, &self.auto_widths);
        }
        let ghost a1 = nat_autos(self.auto_widths@);
        proof {
            assert(a1 == autos_after_header(old(self).rows as nat, columns@, autos0));
        }
        let ghost pre = text@;
        if self.rows >= self.limit {
            if self.rows == self.limit {
                // the cap is hit: the notice instead of a row, forced nudge
                push_run(&mut text, '-', 6);
                push_char(&mut text, '\n');
                let ghost t0 = text@;
                text.append("Hit limit of ");
                proof {
                    reveal_strlit("Hit limit of ");
                    assert(text@ =~= t0 + seq![
                        'H', 'i', 't', ' ', 'l', 'i', 'm', 'i', 't', ' ', 'o', 'f', ' '
                    ]);
                }
                push_decimal(&mut text, self.limit as u64);
                let ghost t1 = text@;
                text.append(" rows\n");
                proof {
                    reveal_strlit(" rows\n");
                    assert(text@ =~= t1 + seq![' ', 'r', 'o', 'w', 's', '\n']);
                    assert(text@ =~= pre + limit_text(old(self).limit as nat));
                }
                return GridStep { text, stop: true, notify: Notify::Forced };
            }
            // past the cap: the module ignored the stop signal; nothing
            // more is drawn
            return GridStep { text, stop: true, notify: Notify::Silent };
        }
        // one data row
        let mut texts: Vec<String> = Vec::new();
        let mut i: usize = 0;
        while i < row.len()
            invariant
                i <= row@.len(),
                texts@.len() == i,
                tv == row@.map_values(|c: Cell| spec_cell_text(c@)),
                forall|k: int| 0 <= k < i ==> (#[trigger] texts@[k])@ == tv[k],
            decreases row@.len() - i,
        {
            texts.push(cell_text(&row[i]));
            i = i + 1;
        }
        proof {
            assert(texts@.map_values(|t: String| t@) =~= tv);
        }
        push_cells_line(&mut text, columns, &self.auto_widths, &texts);
        update_widths(&mut self.auto_widths, columns, &texts);
        self.rows = self.rows + 1;
        GridStep {
            text,
            stop: false,
            notify: if first {
                Notify::Forced
            } else {
                Notify::Limited
            },
        }
    }
}

} // verus!
