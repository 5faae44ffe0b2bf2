//! The serializer: a header row, then one row per record, each encoded as CSV.

use vstd::prelude::*;
use crate::cvar::{cvar_views, Cvar, CvarView};
use crate::encode::{csv_record, encode_record};
use crate::pattern::texts;

verus! {

/// A row that could not be encoded.
#[derive(Debug, Clone, Copy, PartialEq, Eq)]
pub struct WriteError {
    /// Index of the row in the table; the header is row zero.
    pub row: usize,
}

/// `parts` with a comma between each two neighbours.
pub open spec fn joined(parts: Seq<Seq<char>>) -> Seq<char>
    decreases parts.len(),
{
    if parts.len() == 0 {
        Seq::empty()
    } else if parts.len() == 1 {
        parts[0]
    } else {
        joined(parts.drop_last()) + seq![','] + parts.last()
    }
}

/// The column labels.
pub open spec fn header_fields() -> Seq<Seq<char>> {
    seq!["name"@, "default"@, "attributes"@, "description"@]
}

/// The fields of a record's row: the name, the flags joined by commas, the
/// default value, the description.
pub open spec fn row_of(cvar: CvarView) -> Seq<Seq<char>> {
    seq![cvar.name, joined(cvar.attributes), cvar.default, cvar.description]
}

/// The rows of the table: the header, then the row of each record in order.
pub open spec fn table_of(cvars: Seq<CvarView>) -> Seq<Seq<Seq<char>>> {
    seq![header_fields()] + cvars.map_values(|cvar: CvarView| row_of(cvar))
}

/// The encodings of `rows` one after the other, or `None` where one of them
/// cannot be encoded.
pub open spec fn encoded_rows(rows: Seq<Seq<Seq<char>>>) -> Option<Seq<u8>>
    decreases rows.len(),
{
    if rows.len() == 0 {
        Some(Seq::empty())
    } else {
        match (encoded_rows(rows.drop_last()), csv_record(rows.last())) {
            (Some(earlier), Some(last)) => Some(earlier + last),
            _ => None,
        }
    }
}

/// The CSV text of a sequence of records.
pub open spec fn serialized(cvars: Seq<CvarView>) -> Option<Seq<u8>> {
    encoded_rows(table_of(cvars))
}

/// Once a row cannot be encoded, no longer table can.
pub proof fn lemma_failure_persists(rows: Seq<Seq<Seq<char>>>, k: int)
    requires
        0 <= k <= rows.len(),
        encoded_rows(rows.take(k)) is None,
    ensures
        encoded_rows(rows) is None,
    decreases rows.len() - k,
{
    if k == rows.len() {
        assert(rows.take(k) =~= rows);
    } else {
        assert(rows.take(k + 1).drop_last() =~= rows.take(k));
        lemma_failure_persists(rows, k + 1);
    }
}

/// With no records the output is the encoded header row and nothing else.
pub proof fn law_empty_table_is_header()
    ensures
        serialized(Seq::empty()) == csv_record(header_fields()),
{
    let table = table_of(Seq::empty());
    assert(table =~= seq![header_fields()]);
    assert(table.drop_last() =~= Seq::<Seq<Seq<char>>>::empty());
    assert(encoded_rows(table.drop_last()) == Some(Seq::<u8>::empty()));
    match csv_record(header_fields()) {
        Some(bytes) => {
            assert(Seq::<u8>::empty() + bytes =~= bytes);
        },
        None => {},
    }
}

/// Joins the flags of a record into one field.
pub fn join_attributes(parts: &Vec<String>) -> (field: String)
    ensures
        field@ == joined(texts(parts@)),
{
    let mut field = String::new();
    let mut i: usize = 0;
    assert(texts(parts@).take(0) =~= Seq::<Seq<char>>::empty());
    while i < parts.len()
        invariant
            0 <= i <= parts.len(),
            field@ == joined(texts(parts@).take(i as int)),
        decreases parts.len() - i,
    {
        let ghost upto = texts(parts@).take(i + 1);
        assert(upto.drop_last() =~= texts(parts@).take(i as int));
        assert(upto.last() == parts[i as int]@);
        if i > 0 {
            proof {
                reveal_strlit(",");
            }
            field.append(",");
            assert(","@ =~= seq![',']);
        } else {
            assert(field@ + parts[i as int]@ =~= parts[i as int]@);
        }
        field.append(parts[i].as_str());
        i = i + 1;
    }
    assert(texts(parts@).take(i as int) =~= texts(parts@));
    field
}

/// The header row.
pub fn header_row() -> (row: Vec<String>)
    ensures
        texts(row@) == header_fields(),
{
    let mut row: Vec<String> = Vec::new();
    row.push("name".to_owned());
    row.push("default".to_owned());
    row.push("attributes".to_owned());
    row.push("description".to_owned());
    assert(texts(row@) =~= header_fields());
    row
}

/// The row of one record.
pub fn cvar_row(cvar: &Cvar) -> (row: Vec<String>)
    ensures
        texts(row@) == row_of(cvar@),
{
    let mut row: Vec<String> = Vec::new();
    row.push(cvar.name.clone());
    row.push(join_attributes(&cvar.attributes));
    row.push(cvar.default.clone());
    row.push(cvar.description.clone());
    assert(texts(row@) =~= row_of(cvar@));
    row
}

/// Appends an encoded row to the output, or reports the row that the encoder
/// refused and leaves the output as it was.
pub fn append_record(out: &mut Vec<u8>, encoded: Result<Vec<u8>, csv::Error>, row: usize) -> (r:
    Result<(), WriteError>)
    ensures
        match encoded {
            Ok(bytes) => r is Ok && final(out)@ == old(out)@ + bytes@,
            Err(_) => r matches Err(e) && e.row == row && final(out)@ == old(out)@,
        },
{
    match encoded {
        Ok(bytes) => {
            let mut bytes = bytes;
            out.append(&mut bytes);
            Ok(())
        },
        Err(_) => Err(WriteError { row }),
    }
}

/// Renders the records as CSV: the header row, then one row per record in
/// order. Fails at the first row that the encoder refuses.
pub fn write_cvar_csv(cvars: &Vec<Cvar>) -> (r: Result<Vec<u8>, WriteError>)
    ensures
        match r {
            Ok(bytes) => serialized(cvar_views(cvars@)) == Some(bytes@),
            Err(e) => {
                &&& serialized(cvar_views(cvars@)) is None
                &&& e.row < table_of(cvar_views(cvars@)).len()
                &&& csv_record(table_of(cvar_views(cvars@))[e.row as int]) is None
                &&& encoded_rows(table_of(cvar_views(cvars@)).take(e.row as int)) is Some
            },
        },
{
    let ghost table = table_of(cvar_views(cvars@));
    let mut out: Vec<u8> = Vec::new();
    let header = header_row();
    assert(table.take(0) =~= Seq::<Seq<Seq<char>>>::empty());
    assert(table.take(1).drop_last() =~= table.take(0));
    assert(table.take(1).last() == header_fields());
    match append_record(&mut out, encode_record(&header), 0) {
        Ok(()) => {
            assert(Seq::<u8>::empty() + out@ =~= out@);
            assert(encoded_rows(table.take(0)) == Some(Seq::<u8>::empty()));
        },
        Err(e) => {
            proof {
                lemma_failure_persists(table, 1);
            }
            return Err(e);
        },
    }
    let mut i: usize = 0;
    while i < cvars.len()
        invariant
            0 <= i <= cvars.len(),
            table == table_of(cvar_views(cvars@)),
            encoded_rows(table.take(i + 1)) == Some(out@),
        decreases cvars.len() - i,
    {
        let row = cvar_row(&cvars[i]);
        assert(table.take(i + 2).drop_last() =~= table.take(i + 1));
        assert(table.take(i + 2).last() == row_of(cvars[i as int]@));
        match append_record(&mut out, encode_record(&row), i + 1) {
            Ok(()) => {},
            Err(e) => {
                proof {
                    lemma_failure_persists(table, i + 2);
                }
                return Err(e);
            },
        }
        i = i + 1;
    }
    assert(table.take(i + 1) =~= table);
    Ok(out)
}

} // verus!
