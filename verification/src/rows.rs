use vstd::prelude::*;

use crate::source::ByteSource;
use crate::Ecsv;

verus! {

/// What the delimited-text reader yields for a filtered body and a
/// separator byte: the field texts of every record after the first
/// row, which it takes as the column-name row.
pub uninterp spec fn csv_rows_of(body: Seq<u8>, delimiter: u8) -> Seq<Seq<Seq<char>>>;

/// Whether the delimited-text reader accepts a byte stream whole for
/// a separator byte; like the rows, a function of the two alone.
pub uninterp spec fn csv_accepts(body: Seq<u8>, delimiter: u8) -> bool;

/// Relies on csv::ReaderBuilder and csv::Reader::records: reads
/// delimiter-separated records from the given bytes; the first record
/// is consumed as the header row and not yielded.  `None` exactly on
/// a body the reader rejects (unequal record lengths, invalid text).
#[verifier::external_body]
fn csv_records(body: &Vec<u8>, delimiter: u8) -> (r: Option<Vec<Vec<std::string::String>>>)
    ensures
        (r is Some) <==> csv_accepts(body@, delimiter),
        r matches Some(rows) ==> rows@.map_values(
            |row: Vec<std::string::String>| row@.map_values(|f: std::string::String| f@),
        ) == csv_rows_of(body@, delimiter),
{
    let mut rdr = csv::ReaderBuilder::new().delimiter(delimiter).from_reader(body.as_slice());
    let mut out: Vec<Vec<std::string::String>> = Vec::new();
    for rec in rdr.records() {
        match rec {
            Ok(fields) => out.push(fields.iter().map(|f| f.to_string()).collect()),
            Err(_) => return None,
        }
    }
    Some(out)
}

/// Drains the body filter and hands everything it passes through to
/// the delimited-text reader, row texts out.
pub fn read_rows<R: ByteSource>(ecsv: &mut Ecsv<R>) -> (r: Result<
    Vec<Vec<std::string::String>>,
    crate::error::Error,
>)
    requires
        old(ecsv).reader.wf(),
    ensures
        final(ecsv).reader.wf(),
        final(ecsv).header == old(ecsv).header,
        final(ecsv).delimiter == old(ecsv).delimiter,
        (r is Err) <==> !csv_accepts(old(ecsv).reader.future(), old(ecsv).delimiter),
        match r {
            Ok(rows) => {
                &&& rows@.map_values(
                    |row: Vec<std::string::String>| row@.map_values(
                        |f: std::string::String| f@,
                    ),
                ) == csv_rows_of(old(ecsv).reader.future(), old(ecsv).delimiter)
                &&& final(ecsv).reader.future().len() == 0
            },
            Err(e) => e == crate::error::Error::Io,
        },
{
    let mut body: Vec<u8> = Vec::new();
    let mut chunk: Vec<u8> = Vec::new();
    while chunk.len() < crate::read::BUF_SIZE
        invariant
            chunk.len() <= crate::read::BUF_SIZE,
        decreases crate::read::BUF_SIZE - chunk.len(),
    {
        chunk.push(0u8);
    }
    proof {
        assert(body@ + ecsv.reader.future() =~= ecsv.reader.future());
    }
    loop
        invariant
            ecsv.reader.wf(),
            chunk.len() == crate::read::BUF_SIZE,
            ecsv.header == old(ecsv).header,
            ecsv.delimiter == old(ecsv).delimiter,
            body@ + ecsv.reader.future() == old(ecsv).reader.future(),
        decreases ecsv.reader.future().len(),
    {
        let ghost body_pre = body@;
        let n = ecsv.reader.read(&mut chunk);
        if n == 0 {
            proof {
                assert(body@ + ecsv.reader.future() =~= body@);
            }
            match csv_records(&body, ecsv.delimiter) {
                Some(rows) => {
                    return Ok(rows);
                },
                None => {
                    return Err(crate::error::Error::Io);
                },
            }
        }
        crate::append_prefix(&mut body, &chunk, n);
        proof {
            assert((body_pre + chunk@.take(n as int)) + ecsv.reader.future() =~= body_pre + (
            chunk@.take(n as int) + ecsv.reader.future()));
        }
    }
}

} // verus!
