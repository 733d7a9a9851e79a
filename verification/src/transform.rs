//! The column-split transform: a conversion function from one record to an
//! ordered sequence of records, either the identity or the expansion of one
//! column's value into one record per piece.

use crate::error::ConvertError;
use crate::policy::SplitPolicy;
use crate::record::{copy_bytes, Record};
use crate::split::{spec_split, split};
use vstd::prelude::*;

verus! {

/// The split command: the configuration of the column-split transform.
/// Constructed once, before any record is processed, and immutable for the
/// run.
#[derive(Debug)]
pub struct SplitCommand {
    /// 1-based target column number; always at least 1.
    pub col: usize,
    /// The literal separator (not a pattern); never empty.
    pub sep: Vec<u8>,
    /// The splitting policy.
    pub policy: SplitPolicy,
}

impl SplitCommand {
    /// What construction establishes: a positive column number and a
    /// non-empty separator.
    pub open spec fn well_formed(&self) -> bool {
        &&& self.col >= 1
        &&& self.sep@.len() >= 1
    }

    /// Builds the command, failing fast — before any record is processed —
    /// when the column number is not positive or the separator is empty.
    pub fn new(col: usize, sep: Vec<u8>, policy: SplitPolicy) -> (r: Result<
        SplitCommand,
        ConvertError,
    >)
        ensures
            r is Ok <==> col >= 1 && sep@.len() >= 1,
            r matches Ok(c) ==> c.col == col && c.sep@ == sep@ && c.policy == policy
                && c.well_formed(),
            r matches Err(e) ==> e is InvalidCommand,
    {
        if col == 0 {
            Err(ConvertError::InvalidCommand("column number must be positive".to_owned()))
        } else if sep.len() == 0 {
            Err(ConvertError::InvalidCommand("separator must not be empty".to_owned()))
        } else {
            Ok(SplitCommand { col, sep, policy })
        }
    }
}

/// The conversion function chosen at startup and applied uniformly to every
/// input record: the identity when no split command is supplied, otherwise
/// the column-split transform bound to one.
pub enum Converter {
    /// Every record maps to exactly itself.
    Identity,
    /// Records are expanded by splitting the value of one column.
    ColumnSplit(SplitCommand),
}

impl Converter {
    /// The commands a converter carries are well formed.
    pub open spec fn well_formed(&self) -> bool {
        match self {
            Converter::Identity => true,
            Converter::ColumnSplit(cmd) => cmd.well_formed(),
        }
    }
}

/// What a conversion function produces for one input record: the record
/// itself for the identity; for the column split, one output record per
/// piece of the target field's value, identical to the input except that
/// the target field carries the piece — unless the record is too short to
/// have the target field, in which case it passes through unchanged.
pub open spec fn spec_apply(conv: Converter, rec: Seq<Seq<u8>>) -> Seq<Seq<Seq<u8>>> {
    match conv {
        Converter::Identity => seq![rec],
        Converter::ColumnSplit(cmd) => {
            let off = cmd.col - 1;
            if rec.len() <= off {
                seq![rec]
            } else {
                spec_split(rec[off], cmd.sep@, cmd.policy).map_values(
                    |piece: Seq<u8>| rec.update(off, piece),
                )
            }
        },
    }
}

impl Converter {
    /// Applies the conversion function to one record, returning the output
    /// records in piece order.
    pub fn apply(&self, rec: &Record) -> (out: Vec<Record>)
        requires
            self.well_formed(),
        ensures
            out.deep_view() == spec_apply(*self, rec@),
    {
        match self {
            Converter::Identity => {
                let mut out: Vec<Record> = Vec::new();
                out.push(rec.duplicate());
                proof {
                    assert(out.deep_view() =~~= spec_apply(*self, rec@));
                }
                out
            },
            Converter::ColumnSplit(cmd) => {
                let off = cmd.col - 1;
                match rec.get(off) {
                    None => {
                        let mut out: Vec<Record> = Vec::new();
                        out.push(rec.duplicate());
                        proof {
                            assert(out.deep_view() =~~= spec_apply(*self, rec@));
                        }
                        out
                    },
                    Some(field) => {
                        let pieces = split(field, &cmd.sep, &cmd.policy);
                        let ghost spec_pieces = spec_split(rec@[off as int], cmd.sep@, cmd.policy);
                        let mut out: Vec<Record> = Vec::new();
                        let mut i: usize = 0;
                        while i < pieces.len()
                            invariant
                                i <= pieces.len(),
                                off < rec@.len(),
                                pieces.deep_view() == spec_pieces,
                                out.deep_view() =~= Seq::new(
                                    i as nat,
                                    |j: int| rec@.update(off as int, spec_pieces[j]),
                                ),
                            decreases pieces.len() - i,
                        {
                            let ghost out0 = out.deep_view();
                            let piece = copy_bytes(&pieces[i]);
                            proof {
                                assert(piece@ == spec_pieces[i as int]);
                            }
                            out.push(rec.with_field(off, &piece));
                            proof {
                                assert(out.deep_view() =~~= out0.push(
                                    rec@.update(off as int, spec_pieces[i as int]),
                                ));
                            }
                            i = i + 1;
                        }
                        proof {
                            assert(out.deep_view() =~~= spec_apply(*self, rec@));
                        }
                        out
                    },
                }
            },
        }
    }
}

/// A record shorter than the target column passes through the column-split
/// transform unchanged, as a single-element sequence.
pub proof fn lemma_short_record_passthrough(cmd: SplitCommand, rec: Seq<Seq<u8>>)
    requires
        rec.len() < cmd.col,
    ensures
        spec_apply(Converter::ColumnSplit(cmd), rec) == seq![rec],
{
}

/// The transform never changes the field count: every record a conversion
/// function produces has exactly as many fields as the input record.
pub proof fn lemma_field_count_preserved(conv: Converter, rec: Seq<Seq<u8>>, i: int)
    requires
        conv.well_formed(),
        0 <= i < spec_apply(conv, rec).len(),
    ensures
        spec_apply(conv, rec)[i].len() == rec.len(),
{
    match conv {
        Converter::Identity => {
        },
        Converter::ColumnSplit(cmd) => {
            let off = cmd.col - 1;
            if off < rec.len() {
                let pieces = spec_split(rec[off], cmd.sep@, cmd.policy);
                assert(spec_apply(conv, rec)[i] == rec.update(off, pieces[i]));
            }
        },
    }
}

} // verus!
