//! Delimited text: the bytes that are written for the records of a sheet.

use crate::cell::{lemma_records_follow_shape, Grid};
use crate::delimiter::Delimiter;
use vstd::prelude::*;

verus! {

/// The error type of the `csv` crate.
#[verifier::external_type_specification]
#[verifier::external_body]
pub struct ExCsvError(csv::Error);

/// The bytes that the `csv` crate writes for one record with the given
/// field delimiter, the terminator included; none where it refuses the
/// record.
pub uninterp spec fn csv_record(delimiter: u8, fields: Seq<Seq<char>>) -> Option<Seq<u8>>;

/// Why the records of a sheet could not be put into delimited text.
#[derive(Debug)]
pub enum ExportError {
    /// A record has another number of fields than the first record.
    UnequalLengths { expected_len: u64, len: u64 },
    /// The `csv` crate refused a record.
    Csv(csv::Error),
}

/// An export error without the value of the outside error.
pub enum ExportErrorView {
    UnequalLengths { expected_len: nat, len: nat },
    Csv,
}

impl View for ExportError {
    type V = ExportErrorView;

    open spec fn view(&self) -> ExportErrorView {
        match self {
            ExportError::UnequalLengths { expected_len, len } => ExportErrorView::UnequalLengths {
                expected_len: *expected_len as nat,
                len: *len as nat,
            },
            ExportError::Csv(_) => ExportErrorView::Csv,
        }
    }
}

/// The delimited text of some records: the bytes of each record in order.
/// Every record must have as many fields as the first; the first record
/// that has not, or that the `csv` crate refuses, decides the error.
pub open spec fn encoded_records(delimiter: u8, records: Seq<Seq<Seq<char>>>) -> Result<
    Seq<u8>,
    ExportErrorView,
>
    decreases records.len(),
{
    if records.len() == 0 {
        Ok(Seq::empty())
    } else {
        match encoded_records(delimiter, records.drop_last()) {
            Err(error) => Err(error),
            Ok(bytes) => if records.last().len() != records[0].len() {
                Err(
                    ExportErrorView::UnequalLengths {
                        expected_len: records[0].len(),
                        len: records.last().len(),
                    },
                )
            } else {
                match csv_record(delimiter, records.last()) {
                    Some(line) => Ok(bytes + line),
                    None => Err(ExportErrorView::Csv),
                }
            },
        }
    }
}

/// The outcome of an export, with the bytes as a sequence.
pub open spec fn export_view(outcome: Result<Vec<u8>, ExportError>) -> Result<
    Seq<u8>,
    ExportErrorView,
> {
    match outcome {
        Ok(bytes) => Ok(bytes@),
        Err(error) => Err(error@),
    }
}

/// Writes one record with `csv::Writer::write_record` into an empty byte
/// buffer, through a writer that `csv::WriterBuilder` makes with the given
/// delimiter and otherwise as it is by default, and hands the buffer out
/// after `csv::Writer::flush`. The contract gives the bytes, or the refusal,
/// the name `csv_record`; it claims nothing else of them.
#[verifier::external_body]
fn encode_record(delimiter: u8, fields: &Vec<String>) -> (encoded: Result<Vec<u8>, csv::Error>)
    ensures
        match encoded {
            Ok(bytes) => csv_record(delimiter, fields.deep_view()) == Some(bytes@),
            Err(_) => csv_record(delimiter, fields.deep_view()) is None,
        },
{
    let mut writer = csv::WriterBuilder::new().delimiter(delimiter).from_writer(Vec::new());
    writer.write_record(fields)?;
    writer.flush()?;
    Ok(writer.get_ref().clone())
}

/// Puts records into delimited text with the given delimiter.
pub fn encode_records(delimiter: Delimiter, records: &Vec<Vec<String>>) -> (outcome: Result<
    Vec<u8>,
    ExportError,
>)
    ensures
        export_view(outcome) == encoded_records(delimiter.0, records.deep_view()),
{
    let mut text: Vec<u8> = Vec::new();
    let mut i: usize = 0;
    while i < records.len()
        invariant
            i <= records.len(),
            encoded_records(delimiter.0, records.deep_view().take(i as int)) == Ok::<
                Seq<u8>,
                ExportErrorView,
            >(text@),
        decreases records.len() - i,
    {
        proof {
            let done = records.deep_view().take(i as int);
            assert(records.deep_view().take(i + 1).drop_last() =~= done);
        }
        if records[i].len() != records[0].len() {
            proof {
                lemma_error_stays(delimiter.0, records.deep_view(), i + 1);
            }
            return Err(
                ExportError::UnequalLengths {
                    expected_len: records[0].len() as u64,
                    len: records[i].len() as u64,
                },
            );
        }
        match encode_record(delimiter.0, &records[i]) {
            Ok(mut line) => {
                text.append(&mut line);
            },
            Err(error) => {
                proof {
                    lemma_error_stays(delimiter.0, records.deep_view(), i + 1);
                }
                return Err(ExportError::Csv(error));
            },
        }
        i += 1;
    }
    assert(records.deep_view().take(i as int) =~= records.deep_view());
    Ok(text)
}

/// The delimited text of a sheet: its records, put into text with the given
/// delimiter. A sheet whose height or width is zero gives the empty text.
pub fn worksheet_to_csv(grid: &Grid, delimiter: Delimiter) -> (outcome: Result<
    Vec<u8>,
    ExportError,
>)
    ensures
        export_view(outcome) == encoded_records(delimiter.0, grid@.records()),
        !(outcome matches Err(ExportError::UnequalLengths { .. })),
        grid@.height == 0 || grid@.width == 0 ==> (outcome matches Ok(bytes) && bytes@.len() == 0),
{
    let records = grid.records();
    proof {
        lemma_records_follow_shape(grid@);
        lemma_even_records_have_equal_lengths(delimiter.0, grid@.records(), grid@.width);
    }
    encode_records(delimiter, &records)
}

/// An error among the first records is the error of them all.
pub proof fn lemma_error_stays(delimiter: u8, records: Seq<Seq<Seq<char>>>, k: int)
    requires
        0 <= k <= records.len(),
        encoded_records(delimiter, records.take(k)) is Err,
    ensures
        encoded_records(delimiter, records) == encoded_records(delimiter, records.take(k)),
    decreases records.len() - k,
{
    if k == records.len() {
        assert(records.take(k) =~= records);
    } else {
        assert(records.drop_last().take(k) =~= records.take(k));
        lemma_error_stays(delimiter, records.drop_last(), k);
    }
}

/// Records that all have the same number of fields are never refused for
/// their lengths.
pub proof fn lemma_even_records_have_equal_lengths(
    delimiter: u8,
    records: Seq<Seq<Seq<char>>>,
    width: nat,
)
    requires
        forall|i: int| 0 <= i < records.len() ==> (#[trigger] records[i]).len() == width,
    ensures
        !(encoded_records(delimiter, records) matches Err(
            ExportErrorView::UnequalLengths { .. },
        )),
    decreases records.len(),
{
    if records.len() > 0 {
        lemma_even_records_have_equal_lengths(delimiter, records.drop_last(), width);
    }
}

} // verus!
