use livid::cell::Cell;
use livid::grid::{GridRenderer, Notify};
use livid::schema::{CellType, Column, WidthSpec};

fn col(name: &str, index: usize, width: WidthSpec) -> Column {
    Column::new(name.to_string(), index, CellType::Text, width)
}

fn text_row(vals: &[&str]) -> Vec<Cell> {
    vals.iter().map(|v| Cell::Text(v.to_string())).collect()
}

#[test]
fn first_call_draws_header_separator_and_row() {
    let mut g = GridRenderer::new();
    let cols = vec![col("name", 0, WidthSpec::Auto)];
    let step = g.grid(&cols, &text_row(&["hi"]));
    assert_eq!(step.text, "| name |\n+------+\n|   hi |\n");
    assert!(!step.stop);
    assert_eq!(step.notify, Notify::Forced);
    assert_eq!(g.rows, 1);
}

#[test]
fn later_calls_draw_only_the_row() {
    let mut g = GridRenderer::new();
    let cols = vec![col("a", 0, WidthSpec::Auto), col("b", 1, WidthSpec::Auto)];
    let first = g.grid(&cols, &text_row(&["1", "2"]));
    assert_eq!(first.text, "| a | b |\n+---+---+\n| 1 | 2 |\n");
    let second = g.grid(&cols, &text_row(&["3", "4"]));
    assert_eq!(second.text, "| 3 | 4 |\n");
    assert_eq!(second.notify, Notify::Limited);
}

#[test]
fn auto_width_grows_and_never_shrinks() {
    let mut g = GridRenderer::new();
    let cols = vec![col("c", 0, WidthSpec::Auto)];
    let first = g.grid(&cols, &text_row(&["aaa"]));
    // the header resolved width 1; the long value widens the column
    assert_eq!(first.text, "| c |\n+---+\n| aaa |\n");
    assert_eq!(g.auto_widths, vec![3]);
    let second = g.grid(&cols, &text_row(&["b"]));
    assert_eq!(second.text, "|   b |\n");
    assert_eq!(g.auto_widths, vec![3]);
}

#[test]
fn hidden_columns_are_skipped_entirely() {
    let mut g = GridRenderer::new();
    let cols = vec![
        col("a", 0, WidthSpec::Auto),
        col("h", 1, WidthSpec::Hidden),
        col("b", 2, WidthSpec::Auto),
    ];
    let step = g.grid(&cols, &text_row(&["1", "ignored", "2"]));
    assert_eq!(step.text, "| a | b |\n+---+---+\n| 1 | 2 |\n");
}

#[test]
fn fixed_width_columns_use_their_width() {
    let mut g = GridRenderer::new();
    let cols = vec![col("n", 0, WidthSpec::Fixed(6))];
    let step = g.grid(&cols, &text_row(&["abc"]));
    assert_eq!(step.text, "|      n |\n+--------+\n|    abc |\n");
}

#[test]
fn empty_cells_render_as_empty_text() {
    let mut g = GridRenderer::new();
    let cols = vec![col("a", 0, WidthSpec::Auto), col("b", 1, WidthSpec::Auto)];
    let step = g.grid(&cols, &vec![Cell::Long(5), Cell::Empty]);
    assert_eq!(step.text, "| a | b |\n+---+---+\n| 5 |   |\n");
}

#[test]
fn row_cap_emits_notice_and_stops() {
    let mut g = GridRenderer::new();
    g.set_limit(2);
    let cols = vec![col("a", 0, WidthSpec::Auto)];
    let r1 = g.grid(&cols, &text_row(&["1"]));
    assert!(!r1.stop);
    let r2 = g.grid(&cols, &text_row(&["2"]));
    assert!(!r2.stop);
    assert_eq!(g.rows, 2);
    // exactly two data rows came out; the third call brings the notice
    let r3 = g.grid(&cols, &text_row(&["3"]));
    assert!(r3.stop);
    assert_eq!(r3.text, "------\nHit limit of 2 rows\n");
    assert_eq!(r3.notify, Notify::Forced);
    assert_eq!(g.rows, 2);
    // a call past the cap is the module's contract violation: nothing is
    // drawn and nothing crashes
    let r4 = g.grid(&cols, &text_row(&["4"]));
    assert!(r4.stop);
    assert_eq!(r4.text, "------\nHit limit of 2 rows\n");
    assert_eq!(g.rows, 2);
}

#[test]
fn zero_cap_still_draws_the_header() {
    let mut g = GridRenderer::new();
    g.set_limit(0);
    let cols = vec![col("a", 0, WidthSpec::Auto)];
    let step = g.grid(&cols, &text_row(&["x"]));
    assert!(step.stop);
    assert_eq!(step.text, "| a |\n+---+\n------\nHit limit of 0 rows\n");
}

#[test]
fn reset_rows_starts_a_new_run_but_keeps_widths() {
    let mut g = GridRenderer::new();
    let cols = vec![col("c", 0, WidthSpec::Auto)];
    g.grid(&cols, &text_row(&["wide value"]));
    assert_eq!(g.auto_widths, vec![10]);
    g.reset_rows();
    assert_eq!(g.rows, 0);
    // widths persist across runs, so the new header is already wide
    let step = g.grid(&cols, &text_row(&["x"]));
    assert_eq!(
        step.text,
        "|          c |\n+------------+\n|          x |\n"
    );
}

#[test]
fn default_cap_matches_a_module_that_declares_none() {
    let g = GridRenderer::new();
    assert_eq!(g.limit, 20);
    assert_eq!(g.rows, 0);
}
