use xlsx2csv::{project_row, Cell, Grid};

fn row_of_each_kind() -> Vec<Cell> {
    vec![
        Cell::Int(1),
        Cell::Float(format!("{}", 2.5f64)),
        Cell::Text("x".to_string()),
        Cell::Bool(true),
        Cell::Other,
    ]
}

#[test]
fn row_of_each_kind_of_cell_projects_to_its_texts() {
    assert_eq!(project_row(&row_of_each_kind()), ["1", "2.5", "x", "true", ""]);
}

#[test]
fn empty_row_projects_to_no_text() {
    let texts = project_row(&[]);
    assert!(texts.is_empty());
}

#[test]
fn each_cell_displays_as_its_kind_does() {
    assert_eq!(Cell::Int(0).display(), "0");
    assert_eq!(Cell::Int(-17).display(), "-17");
    assert_eq!(Cell::Int(i64::MIN).display(), i64::MIN.to_string());
    assert_eq!(Cell::Float("0.1".to_string()).display(), "0.1");
    assert_eq!(Cell::Float(format!("{}", 3f64)).display(), "3");
    assert_eq!(Cell::Text("a,b \"c\"".to_string()).display(), "a,b \"c\"");
    assert_eq!(Cell::Text(String::new()).display(), "");
    assert_eq!(Cell::Bool(true).display(), "true");
    assert_eq!(Cell::Bool(false).display(), "false");
    assert_eq!(Cell::Other.display(), "");
}

#[test]
fn clone_of_a_cell_displays_the_same() {
    for cell in row_of_each_kind() {
        assert_eq!(cell.clone().display(), cell.display());
    }
}

#[test]
fn grid_is_made_where_the_rows_fit_the_size() {
    let grid = Grid::new(2, 5, vec![row_of_each_kind(), row_of_each_kind()]).unwrap();
    assert_eq!(grid.height(), 2);
    assert_eq!(grid.width(), 5);
    assert!(Grid::new(0, 0, Vec::new()).is_some());
    assert!(Grid::new(0, 3, Vec::new()).is_some());
    assert!(Grid::new(2, 0, vec![Vec::new(), Vec::new()]).is_some());
}

#[test]
fn grid_is_not_made_where_the_rows_do_not_fit_the_size() {
    assert!(Grid::new(1, 5, vec![row_of_each_kind(), row_of_each_kind()]).is_none());
    assert!(Grid::new(3, 5, vec![row_of_each_kind(), row_of_each_kind()]).is_none());
    assert!(Grid::new(2, 4, vec![row_of_each_kind(), row_of_each_kind()]).is_none());
    assert!(Grid::new(2, 5, vec![row_of_each_kind(), vec![Cell::Other]]).is_none());
    assert!(Grid::new(1, 1, Vec::new()).is_none());
}

#[test]
fn grid_gives_one_record_for_each_row() {
    let rows = vec![
        vec![Cell::Text("name".to_string()), Cell::Text("n".to_string())],
        vec![Cell::Text("a".to_string()), Cell::Int(1)],
        vec![Cell::Other, Cell::Bool(false)],
    ];
    let grid = Grid::new(3, 2, rows).unwrap();
    assert_eq!(
        grid.records(),
        [["name", "n"], ["a", "1"], ["", "false"]]
    );
}

#[test]
fn grid_of_size_zero_gives_no_record() {
    let grid = Grid::new(0, 0, Vec::new()).unwrap();
    assert!(grid.records().is_empty());
}

#[test]
fn grid_with_one_dimension_of_zero_gives_no_record() {
    let no_rows = Grid::new(0, 4, Vec::new()).unwrap();
    assert!(no_rows.records().is_empty());
    let no_columns = Grid::new(3, 0, vec![Vec::new(), Vec::new(), Vec::new()]).unwrap();
    assert!(no_columns.records().is_empty());
}
