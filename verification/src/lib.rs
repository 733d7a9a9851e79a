//! A verified engine for delimited tabular text (CSV/TSV): it reads a table
//! as a header plus a sequence of records, optionally expands each record
//! into several records by splitting one column's value at a separator, and
//! writes the result in the requested format.

pub mod error;
pub mod format;
pub mod pipeline;
pub mod policy;
pub mod record;
pub mod split;
pub mod transform;
