use livid::cell::Cell;
use livid::grid::{GridRenderer, Notify};
use livid::schema::{CellType, Column, WidthSpec};
use livid::table::RowSource;

/// The round trip: a comma-separated source with header `a,b,c`, a module
/// declaring `a:Long`, `c:Double` and an unmatched `d:Text`, all
/// auto-sized, with a row cap of 10.
#[test]
fn three_column_round_trip() {
    let mut table = RowSource::new("a,b,c\n", ',');
    assert_eq!(table.input_columns().len(), 3);

    // what the loaded module declares
    let declared = vec![
        Column::new("a".to_string(), 0, CellType::Long, WidthSpec::Auto),
        Column::new("c".to_string(), 1, CellType::Double, WidthSpec::Auto),
        Column::new("d".to_string(), 2, CellType::Text, WidthSpec::Auto),
    ];
    let mut grid = GridRenderer::new();
    grid.set_limit(10);
    grid.reset_rows();
    table.set_output_columns(declared);
    table.reset();

    // the module's own loop: pull rows, hand each to the grid
    let mut source_lines = vec!["2,y,3.5\n", "1,x,2.5\n"];
    let mut outputs: Vec<String> = Vec::new();
    let mut rows_seen: Vec<Vec<Cell>> = Vec::new();
    loop {
        if table.wants_line() {
            if let Some(line) = source_lines.pop() {
                table.feed_line(line);
            }
        }
        let row = match table.next() {
            Some(row) => row,
            None => break,
        };
        rows_seen.push(row.clone());
        let step = grid.grid(table.output_columns(), &row);
        outputs.push(step.text);
        if step.stop {
            break;
        }
    }

    assert_eq!(
        rows_seen,
        vec![
            vec![
                Cell::Long(1),
                Cell::Double("2.5".to_string()),
                Cell::Empty
            ],
            vec![
                Cell::Long(2),
                Cell::Double("3.5".to_string()),
                Cell::Empty
            ],
        ]
    );

    // three rendered columns; `d` is empty in every row
    assert_eq!(
        outputs,
        vec![
            "| a | c | d |\n+---+---+---+\n| 1 | 2.5 |   |\n".to_string(),
            "| 2 | 3.5 |   |\n".to_string(),
        ]
    );

    // resolved widths: one for `a`, three for `c`
    assert!(grid.auto_widths[0] >= 1);
    assert!(grid.auto_widths[1] >= 3);
    assert_eq!(grid.rows, 2);
}

/// A full reload against the same source: the cache replays, and the
/// rendered grid of the second run equals the first run's.
#[test]
fn rerun_renders_identically() {
    let mut table = RowSource::new("k,v\n", ',');
    let declare = || {
        vec![
            Column::new("k".to_string(), 0, CellType::Text, WidthSpec::Auto),
            Column::new("v".to_string(), 1, CellType::Long, WidthSpec::Auto),
        ]
    };

    let mut run = |table: &mut RowSource, lines: &mut Vec<&str>| -> Vec<String> {
        let mut grid = GridRenderer::new();
        grid.set_limit(10);
        grid.reset_rows();
        table.set_output_columns(declare());
        table.reset();
        let mut out = Vec::new();
        loop {
            if table.wants_line() {
                if let Some(line) = lines.pop() {
                    table.feed_line(line);
                }
            }
            let row = match table.next() {
                Some(row) => row,
                None => break,
            };
            let step = grid.grid(table.output_columns(), &row);
            out.push(step.text);
            if step.stop {
                break;
            }
        }
        out
    };

    let mut lines = vec!["b,2\n", "a,1\n"];
    let first = run(&mut table, &mut lines);
    let mut empty: Vec<&str> = Vec::new();
    let second = run(&mut table, &mut empty);
    assert_eq!(first, second);
    assert_eq!(first.len(), 2);
}

/// The stop signal reaches the module through the grid callback's return
/// value: with a cap below the row count, the loop ends at the notice.
#[test]
fn cap_cuts_the_run_short() {
    let mut table = RowSource::new("n\n", ',');
    table.set_output_columns(vec![Column::new(
        "n".to_string(),
        0,
        CellType::Long,
        WidthSpec::Auto,
    )]);
    let mut grid = GridRenderer::new();
    grid.set_limit(1);
    let mut lines = vec!["3\n", "2\n", "1\n"];
    let mut texts = Vec::new();
    loop {
        if table.wants_line() {
            if let Some(line) = lines.pop() {
                table.feed_line(line);
            }
        }
        let row = match table.next() {
            Some(row) => row,
            None => break,
        };
        let step = grid.grid(table.output_columns(), &row);
        texts.push((step.text, step.notify));
        if step.stop {
            break;
        }
    }
    assert_eq!(texts.len(), 2);
    assert_eq!(texts[0].0, "| n |\n+---+\n| 1 |\n");
    assert_eq!(texts[0].1, Notify::Forced);
    assert_eq!(texts[1].0, "------\nHit limit of 1 rows\n");
    assert_eq!(texts[1].1, Notify::Forced);
    // one source line was never pulled
    assert_eq!(lines, vec!["3\n"]);
}
