//! The cells of a sheet and the texts that are written for them.

use crate::text::{signed_decimal, signed_decimal_text};
use vstd::prelude::*;
use vstd::string::*;

verus! {

/// One cell of a sheet, as far as the written text depends on it.
#[derive(Debug)]
pub enum Cell {
    /// A whole number.
    Int(i64),
    /// A number with a fraction, held as the decimal text that stands for it.
    Float(String),
    /// A text.
    Text(String),
    /// A truth value.
    Bool(bool),
    /// An empty cell, or one of a kind that is written as nothing.
    Other,
}

/// A cell with its texts as sequences of characters.
pub enum CellView {
    Int(int),
    Float(Seq<char>),
    Text(Seq<char>),
    Bool(bool),
    Other,
}

impl CellView {
    /// The text that is written for the cell: the decimal numeral of a whole
    /// number, the text of a fraction or of a text as it stands, `true` or
    /// `false` for a truth value, and nothing for any other cell.
    pub open spec fn display(self) -> Seq<char> {
        match self {
            CellView::Int(n) => signed_decimal(n),
            CellView::Float(text) => text,
            CellView::Text(text) => text,
            CellView::Bool(b) => if b {
                "true"@
            } else {
                "false"@
            },
            CellView::Other => Seq::empty(),
        }
    }
}

impl View for Cell {
    type V = CellView;

    open spec fn view(&self) -> CellView {
        match self {
            Cell::Int(n) => CellView::Int(*n as int),
            Cell::Float(text) => CellView::Float(text@),
            Cell::Text(text) => CellView::Text(text@),
            Cell::Bool(b) => CellView::Bool(*b),
            Cell::Other => CellView::Other,
        }
    }
}

impl DeepView for Cell {
    type V = CellView;

    open spec fn deep_view(&self) -> CellView {
        self@
    }
}

impl Clone for Cell {
    fn clone(&self) -> (copy: Self)
        ensures
            copy == *self,
    {
        match self {
            Cell::Int(n) => Cell::Int(*n),
            Cell::Float(text) => Cell::Float(text.clone()),
            Cell::Text(text) => Cell::Text(text.clone()),
            Cell::Bool(b) => Cell::Bool(*b),
            Cell::Other => Cell::Other,
        }
    }
}

/// The texts that are written for a row: one for each cell, in order.
pub open spec fn projected_row(row: Seq<CellView>) -> Seq<Seq<char>> {
    row.map_values(|cell: CellView| cell.display())
}

impl Cell {
    /// The text that is written for the cell.
    pub fn display(&self) -> (text: String)
        ensures
            text@ == self@.display(),
    {
        match self {
            Cell::Int(n) => signed_decimal_text(*n),
            Cell::Float(text) => text.clone(),
            Cell::Text(text) => text.clone(),
            Cell::Bool(b) => if *b {
                String::from_str("true")
            } else {
                String::from_str("false")
            },
            Cell::Other => String::new(),
        }
    }
}

/// Projects a row of cells to the texts that are written for it.
pub fn project_row(row: &[Cell]) -> (fields: Vec<String>)
    ensures
        fields.deep_view() == projected_row(row.deep_view()),
{
    let mut fields: Vec<String> = Vec::new();
    let mut i: usize = 0;
    while i < row.len()
        invariant
            i <= row.len(),
            fields.len() == i,
            forall|j: int| 0 <= j < i ==> fields[j]@ == row[j]@.display(),
        decreases row.len() - i,
    {
        fields.push(row[i].display());
        i += 1;
    }
    fields
}

/// The cells of one sheet: the size that the workbook reports for it and
/// its rows from top to bottom.
#[derive(Debug)]
pub struct Grid {
    height: usize,
    width: usize,
    rows: Vec<Vec<Cell>>,
}

/// A grid with its cells as values.
pub struct GridView {
    pub height: nat,
    pub width: nat,
    pub rows: Seq<Seq<CellView>>,
}

impl GridView {
    /// Whether the rows fit the size: as many rows as the height says, each
    /// with as many cells as the width says.
    pub open spec fn well_formed(self) -> bool {
        &&& self.rows.len() == self.height
        &&& forall|i: int| 0 <= i < self.rows.len() ==> (#[trigger] self.rows[i]).len() == self.width
    }

    /// The records that are written for the grid: none where the height or
    /// the width is zero, else one for each row.
    pub open spec fn records(self) -> Seq<Seq<Seq<char>>> {
        if self.height == 0 || self.width == 0 {
            Seq::empty()
        } else {
            self.rows.map_values(|row: Seq<CellView>| projected_row(row))
        }
    }
}

impl View for Grid {
    type V = GridView;

    closed spec fn view(&self) -> GridView {
        GridView {
            height: self.height as nat,
            width: self.width as nat,
            rows: self.rows.deep_view(),
        }
    }
}

impl Grid {
    #[verifier::type_invariant]
    spec fn fits(&self) -> bool {
        self@.well_formed()
    }

    /// Makes a grid of the given size from its rows. There is none where
    /// the rows do not fit the size.
    pub fn new(height: usize, width: usize, rows: Vec<Vec<Cell>>) -> (made: Option<Grid>)
        ensures
            made is Some <==> (GridView {
                height: height as nat,
                width: width as nat,
                rows: rows.deep_view(),
            }).well_formed(),
            made matches Some(grid) ==> grid@ == (GridView {
                height: height as nat,
                width: width as nat,
                rows: rows.deep_view(),
            }),
    {
        let ghost view = GridView {
            height: height as nat,
            width: width as nat,
            rows: rows.deep_view(),
        };
        if rows.len() != height {
            return None;
        }
        let mut i: usize = 0;
        while i < rows.len()
            invariant
                i <= rows.len(),
                view.rows == rows.deep_view(),
                view.width == width,
                forall|j: int| 0 <= j < i ==> (#[trigger] view.rows[j]).len() == width,
            decreases rows.len() - i,
        {
            if rows[i].len() != width {
                assert(view.rows[i as int].len() != view.width);
                return None;
            }
            i += 1;
        }
        Some(Grid { height, width, rows })
    }

    /// The number of rows that the workbook reports.
    pub fn height(&self) -> (height: usize)
        ensures
            height == self@.height,
    {
        self.height
    }

    /// The number of columns that the workbook reports.
    pub fn width(&self) -> (width: usize)
        ensures
            width == self@.width,
    {
        self.width
    }

    /// The records that are written for the grid, in the order of its rows.
    /// A grid whose height or width is zero gives none.
    pub fn records(&self) -> (records: Vec<Vec<String>>)
        ensures
            records.deep_view() == self@.records(),
            self@.height == 0 || self@.width == 0 ==> records@.len() == 0,
            self@.well_formed(),
    {
        proof {
            use_type_invariant(self);
        }
        let mut records: Vec<Vec<String>> = Vec::new();
        if self.height == 0 || self.width == 0 {
            return records;
        }
        let mut i: usize = 0;
        while i < self.rows.len()
            invariant
                i <= self.rows.len(),
                records.len() == i,
                forall|j: int|
                    0 <= j < i ==> (#[trigger] records[j]).deep_view() == projected_row(
                        self.rows[j].deep_view(),
                    ),
            decreases self.rows.len() - i,
        {
            records.push(project_row(self.rows[i].as_slice()));
            i += 1;
        }
        records
    }
}

/// The records of a grid follow its shape: where neither the height nor the
/// width is zero there is one record for each row, with one field for each
/// column; where either is zero there is no record.
pub proof fn lemma_records_follow_shape(grid: GridView)
    requires
        grid.well_formed(),
    ensures
        grid.height == 0 || grid.width == 0 ==> grid.records().len() == 0,
        grid.height > 0 && grid.width > 0 ==> grid.records().len() == grid.height,
        forall|i: int|
            0 <= i < grid.records().len() ==> (#[trigger] grid.records()[i]).len() == grid.width,
{
}

} // verus!
