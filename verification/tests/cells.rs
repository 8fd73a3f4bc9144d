use livid::cell::{cell_text, coerce_cell, Cell};
use livid::schema::{CellType, WidthSpec};

#[test]
fn type_codes_round_trip() {
    for t in [CellType::Text, CellType::Long, CellType::Time, CellType::Double] {
        assert_eq!(CellType::from_code(t.code()), Some(t));
    }
    assert_eq!(CellType::from_code(0), Some(CellType::Text));
    assert_eq!(CellType::from_code(3), Some(CellType::Double));
    assert_eq!(CellType::from_code(4), None);
    assert_eq!(CellType::from_code(255), None);
}

#[test]
fn type_keywords() {
    assert_eq!(CellType::Text.upper_str(), "TEXT");
    assert_eq!(CellType::Long.upper_str(), "LONG");
    assert_eq!(CellType::Time.upper_str(), "TIME");
    assert_eq!(CellType::Double.upper_str(), "DOUBLE");
}

#[test]
fn width_decoding() {
    assert_eq!(WidthSpec::from_raw(-1), WidthSpec::Hidden);
    assert_eq!(WidthSpec::from_raw(-32768), WidthSpec::Hidden);
    assert_eq!(WidthSpec::from_raw(0), WidthSpec::Auto);
    assert_eq!(WidthSpec::from_raw(1), WidthSpec::Fixed(1));
    assert_eq!(WidthSpec::from_raw(32767), WidthSpec::Fixed(32767));
}

#[test]
fn coerce_text_never_fails() {
    assert_eq!(coerce_cell(CellType::Text, "hello"), Cell::Text("hello".to_string()));
    assert_eq!(coerce_cell(CellType::Text, ""), Cell::Text(String::new()));
    assert_eq!(coerce_cell(CellType::Text, "1.5"), Cell::Text("1.5".to_string()));
}

#[test]
fn coerce_long_and_time() {
    assert_eq!(coerce_cell(CellType::Long, "42"), Cell::Long(42));
    assert_eq!(coerce_cell(CellType::Long, "-1"), Cell::Long(-1));
    assert_eq!(coerce_cell(CellType::Time, "1500000000"), Cell::Time(1500000000));
    // malformed numeric text yields an empty cell, not an error
    assert_eq!(coerce_cell(CellType::Long, "x"), Cell::Empty);
    assert_eq!(coerce_cell(CellType::Long, ""), Cell::Empty);
    assert_eq!(coerce_cell(CellType::Long, "1.5"), Cell::Empty);
    assert_eq!(coerce_cell(CellType::Time, "later"), Cell::Empty);
    assert_eq!(coerce_cell(CellType::Long, "99999999999999999999"), Cell::Empty);
}

#[test]
fn coerce_double() {
    assert_eq!(coerce_cell(CellType::Double, "2.5"), Cell::Double("2.5".to_string()));
    assert_eq!(coerce_cell(CellType::Double, "1e3"), Cell::Double("1e3".to_string()));
    assert_eq!(coerce_cell(CellType::Double, "x"), Cell::Empty);
    assert_eq!(coerce_cell(CellType::Double, ""), Cell::Empty);
}

#[test]
fn rendering_cells() {
    assert_eq!(cell_text(&Cell::Empty), "");
    assert_eq!(cell_text(&Cell::Text("ab".to_string())), "ab");
    assert_eq!(cell_text(&Cell::Long(-7)), "-7");
    assert_eq!(cell_text(&Cell::Time(99)), "99");
    assert_eq!(cell_text(&Cell::Double("2.5".to_string())), "2.5");
}
