//! Delimiter policy: maps a table-format name to the single-byte field
//! delimiter. The name `tsv` selects horizontal tab; every other name,
//! `csv` and unrecognized names included, silently falls back to comma.

use vstd::prelude::*;

verus! {

/// Field delimiter used when the format name is `tsv`.
pub const TSV_DELIMITER: u8 = 9;

/// Field delimiter used for `csv` and for every other format name.
pub const CSV_DELIMITER: u8 = 44;

/// The bytes of the format name `tsv` (ASCII `t`, `s`, `v`).
pub open spec fn tsv_format_name() -> Seq<u8> {
    seq![116u8, 115u8, 118u8]
}

/// The delimiter a format name selects: tab for `tsv`, comma otherwise.
pub open spec fn spec_delimiter(format: Seq<u8>) -> u8 {
    if format == tsv_format_name() {
        TSV_DELIMITER
    } else {
        CSV_DELIMITER
    }
}

/// Chooses the field delimiter for a format name. Total: unrecognized
/// names fall back to comma rather than failing.
pub fn delimiter_for_format(format: &Vec<u8>) -> (r: u8)
    ensures
        r == spec_delimiter(format@),
{
    if format.len() == 3 && format[0] == 116 && format[1] == 115 && format[2] == 118 {
        proof {
            assert(format@ =~= tsv_format_name());
        }
        TSV_DELIMITER
    } else {
        proof {
            assert(format@ != tsv_format_name());
        }
        CSV_DELIMITER
    }
}

} // verus!
