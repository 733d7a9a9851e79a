//! The conversion pipeline: parse the input bytes as a table, forward the
//! header verbatim, expand every record through the conversion function in
//! order, and encode the result with the output delimiter. The first error
//! aborts the run.
//!
//! The delimited-text tokenizer itself is an outside capability: the `csv`
//! crate does the parsing and the encoding, behind trusted wrappers whose
//! contracts name its results.

use crate::error::ConvertError;
use crate::format::{delimiter_for_format, spec_delimiter};
use crate::record::Record;
use crate::transform::{spec_apply, Converter, SplitCommand};
use vstd::prelude::*;

verus! {

/// What the tokenizer makes of a byte buffer with a given field delimiter:
/// the header record and the data records when the buffer parses, nothing
/// when it does not. Parsing is a function of the bytes and the delimiter
/// alone.
pub uninterp spec fn csv_parse(data: Seq<u8>, delim: u8) -> Option<
    (Seq<Seq<u8>>, Seq<Seq<Seq<u8>>>),
>;

/// The bytes the tokenizer writes for a sequence of records with a given
/// field delimiter, or nothing when it refuses them (rows of unequal field
/// counts). Encoding is a function of the records and the delimiter alone.
pub uninterp spec fn csv_encode(rows: Seq<Seq<Seq<u8>>>, delim: u8) -> Option<Seq<u8>>;

#[verifier::external_type_specification]
#[verifier::external_body]
pub struct ExCsvError(csv::Error);

/// Relies on csv::ReaderBuilder::delimiter, csv::Reader::headers and
/// csv::Reader::records: reading a whole byte buffer yields the header row
/// and then the data rows, deterministically in the buffer and the
/// delimiter, or the first parse error.
#[verifier::external_body]
fn parse_table(data: &Vec<u8>, delim: u8) -> (r: Result<(Record, Vec<Record>), csv::Error>)
    ensures
        match r {
            Ok(t) => csv_parse(data@, delim) == Some((t.0@, t.1.deep_view())),
            Err(_) => csv_parse(data@, delim) is None,
        },
{
    let mut rdr = csv::ReaderBuilder::new().delimiter(delim).from_reader(data.as_slice());
    let header: Vec<Vec<u8>> =
        rdr.headers()?.iter().map(|f| f.as_bytes().to_vec()).collect();
    let mut rows: Vec<Record> = Vec::new();
    for rec in rdr.records() {
        let fields: Vec<Vec<u8>> = rec?.iter().map(|f| f.as_bytes().to_vec()).collect();
        rows.push(Record::from_fields(fields));
    }
    Ok((Record::from_fields(header), rows))
}

/// Relies on csv::WriterBuilder::delimiter, csv::Writer::write_record and
/// csv::Writer::into_inner: writing records into a byte buffer is
/// deterministic in the records and the delimiter; the default
/// (non-flexible) writer refuses records of unequal field counts.
#[verifier::external_body]
fn encode_table(rows: &Vec<Record>, delim: u8) -> (r: Result<Vec<u8>, csv::Error>)
    ensures
        match r {
            Ok(out) => csv_encode(rows.deep_view(), delim) == Some(out@),
            Err(_) => csv_encode(rows.deep_view(), delim) is None,
        },
{
    let mut wtr = csv::WriterBuilder::new().delimiter(delim).from_writer(Vec::new());
    for rec in rows {
        wtr.write_record(rec.fields.iter())?;
    }
    wtr.into_inner().map_err(|e| csv::Error::from(e.into_error()))
}

/// Relies on csv::Error's Display implementation for the human-readable
/// description of a parse or write failure.
#[verifier::external_body]
fn csv_error_message(e: &csv::Error) -> (r: String) {
    format!("{}", e)
}

/// The configuration of one conversion run: a format name per stream and
/// the optional split command.
pub struct Parameters {
    /// Input table format name (`tsv` for tab; anything else for comma).
    pub input_format: Vec<u8>,
    /// Output table format name, chosen independently of the input's.
    pub output_format: Vec<u8>,
    /// The split command; absent for the identity conversion.
    pub command: Option<SplitCommand>,
}

impl Parameters {
    /// A command, when present, carries the invariants its construction
    /// established.
    pub open spec fn well_formed(&self) -> bool {
        self.command matches Some(cmd) ==> cmd.well_formed()
    }
}

/// The conversion function a configuration selects: the identity when no
/// split command is supplied, else the column split bound to the command.
pub open spec fn spec_converter(command: Option<SplitCommand>) -> Converter {
    match command {
        None => Converter::Identity,
        Some(cmd) => Converter::ColumnSplit(cmd),
    }
}

/// Builds the conversion function for an optional split command.
pub fn converter(command: Option<SplitCommand>) -> (r: Converter)
    ensures
        r == spec_converter(command),
{
    match command {
        None => Converter::Identity,
        Some(cmd) => Converter::ColumnSplit(cmd),
    }
}

/// The records of the output table: the header verbatim, then the
/// expansion of every input record, in input order and piece order.
pub open spec fn spec_output_rows(
    header: Seq<Seq<u8>>,
    rows: Seq<Seq<Seq<u8>>>,
    conv: Converter,
) -> Seq<Seq<Seq<u8>>> {
    seq![header] + rows.map_values(|rec: Seq<Seq<u8>>| spec_apply(conv, rec)).flatten()
}

/// Runs one conversion: parses `input` with the input format's delimiter,
/// passes the header through, expands each record with the configured
/// conversion function, and encodes everything with the output format's
/// delimiter. Fails with `Parse` when the input does not parse, with `Io`
/// when the output cannot be encoded; succeeds exactly otherwise.
pub fn execute(input: &Vec<u8>, params: Parameters) -> (r: Result<Vec<u8>, ConvertError>)
    requires
        params.well_formed(),
    ensures
        ({
            let conv = spec_converter(params.command);
            let parsed = csv_parse(input@, spec_delimiter(params.input_format@));
            &&& (parsed is None ==> (r matches Err(e) && e is Parse))
            &&& (parsed matches Some(t) ==> {
                let encoded = csv_encode(
                    spec_output_rows(t.0, t.1, conv),
                    spec_delimiter(params.output_format@),
                );
                &&& (encoded is None ==> (r matches Err(e) && e is Io))
                &&& (encoded matches Some(bytes) ==> (r matches Ok(v) && v@ == bytes))
            })
        }),
{
    let in_delim = delimiter_for_format(&params.input_format);
    let out_delim = delimiter_for_format(&params.output_format);
    let conv = converter(params.command);
    match parse_table(input, in_delim) {
        Err(e) => {
            let msg = csv_error_message(&e);
            Err(ConvertError::Parse(msg))
        },
        Ok((header, rows)) => {
            let ghost h = header@;
            let ghost all_rows = rows.deep_view();
            let ghost expansion = all_rows.map_values(
                |rec: Seq<Seq<u8>>| spec_apply(conv, rec),
            );
            let mut out_rows: Vec<Record> = Vec::new();
            out_rows.push(header);
            let mut i: usize = 0;
            while i < rows.len()
                invariant
                    i <= rows.len(),
                    conv.well_formed(),
                    all_rows == rows.deep_view(),
                    expansion == all_rows.map_values(
                        |rec: Seq<Seq<u8>>| spec_apply(conv, rec),
                    ),
                    out_rows.deep_view() =~= seq![h] + expansion.take(i as int).flatten(),
                decreases rows.len() - i,
            {
                let ghost out0 = out_rows.deep_view();
                let mut produced = conv.apply(&rows[i]);
                proof {
                    assert(rows[i as int]@ == all_rows[i as int]);
                    assert(produced.deep_view() == spec_apply(conv, all_rows[i as int]));
                }
                out_rows.append(&mut produced);
                proof {
                    assert(out_rows.deep_view() =~~= out0 + spec_apply(
                        conv,
                        all_rows[i as int],
                    ));
                    assert(expansion.take(i + 1) =~= expansion.take(i as int).push(
                        expansion[i as int],
                    ));
                    expansion.take(i as int).lemma_flatten_push(expansion[i as int]);
                    assert(out_rows.deep_view() =~~= seq![h] + expansion.take(i + 1).flatten());
                }
                i = i + 1;
            }
            proof {
                assert(expansion.take(all_rows.len() as int) =~= expansion);
                assert(out_rows.deep_view() =~~= spec_output_rows(h, all_rows, conv));
            }
            match encode_table(&out_rows, out_delim) {
                Err(e) => {
                    let msg = csv_error_message(&e);
                    Err(ConvertError::Io(msg))
                },
                Ok(bytes) => Ok(bytes),
            }
        },
    }
}

proof fn lemma_flatten_singletons<A>(s: Seq<A>)
    ensures
        s.map_values(|x: A| seq![x]).flatten() == s,
    decreases s.len(),
{
    let m = s.map_values(|x: A| seq![x]);
    if s.len() == 0 {
        assert(m.flatten() =~= s);
    } else {
        lemma_flatten_singletons(s.drop_first());
        assert(m.drop_first() =~= s.drop_first().map_values(|x: A| seq![x]));
        assert(m.flatten() =~= s);
    }
}

/// With no split command the conversion is the identity: the output table
/// is exactly the header followed by every input record, unchanged and in
/// order.
pub proof fn lemma_identity_passthrough(header: Seq<Seq<u8>>, rows: Seq<Seq<Seq<u8>>>)
    ensures
        spec_output_rows(header, rows, spec_converter(None)) == seq![header] + rows,
{
    let conv = spec_converter(None);
    let m = rows.map_values(|rec: Seq<Seq<u8>>| spec_apply(conv, rec));
    assert(m =~= rows.map_values(|rec: Seq<Seq<u8>>| seq![rec]));
    lemma_flatten_singletons(rows);
}

} // verus!
