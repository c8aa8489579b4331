//! Sheet selection, delimiter handling, row projection and output planning
//! for converting spreadsheet workbooks into delimited text.
//!
//! The program around this library opens the workbook and writes the files;
//! the library decides which sheets are written and where to, and gives the
//! bytes that are written for each of them.

pub mod cell;
pub mod delimiter;
pub mod export;
pub mod filter;
pub mod route;
pub mod selector;
pub mod text;

pub use cell::{project_row, Cell, Grid};
pub use delimiter::Delimiter;
pub use export::{encode_records, worksheet_to_csv, ExportError};
pub use filter::{filter_names, FilterError};
pub use route::{
    file_name_for, listing, plan, Destination, Job, OptionName, Options, OutputMode, Plan,
    PlanError, Rule,
};
pub use selector::SheetSelector;
