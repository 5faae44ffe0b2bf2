//! CSV encoding of one row, delegated to the `csv` crate.
//!
//! Nothing in this module is proved: the declarations state what the crate's
//! writer is taken to do.

use vstd::prelude::*;
use crate::pattern::texts;

verus! {

/// The error that a `csv` writer reports.
#[verifier::external_type_specification]
#[verifier::external_body]
pub struct ExCsvError(csv::Error);

/// The bytes that a fresh `csv` writer with default settings emits for a
/// record of these fields, terminator included; `None` where it reports an
/// error instead.
pub uninterp spec fn csv_record(fields: Seq<Seq<char>>) -> Option<Seq<u8>>;

/// Builds a writer over an empty buffer with `csv::WriterBuilder::from_writer`,
/// hands it `fields` through `csv::Writer::write_record`, flushes it and copies
/// the buffer out. Trusted: the outcome is what [`csv_record`] names.
#[verifier::external_body]
pub(crate) fn encode_record(fields: &Vec<String>) -> (r: Result<Vec<u8>, csv::Error>)
    ensures
        match r {
            Ok(bytes) => csv_record(texts(fields@)) == Some(bytes@),
            Err(_) => csv_record(texts(fields@)) is None,
        },
{
    let mut writer = csv::WriterBuilder::new().from_writer(Vec::new());
    writer.write_record(fields)?;
    writer.flush()?;
    Ok(writer.get_ref().clone())
}

} // verus!
