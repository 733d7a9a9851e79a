//! The record model: one table row as an ordered sequence of byte-string
//! fields. Field counts may differ between rows; consumers must tolerate
//! short and long rows — the model enforces no rectangularity.

use crate::split::sub_bytes;
use vstd::prelude::*;

verus! {

/// One table row. Field order is significant: it is the table's column
/// order.
#[derive(Debug, PartialEq, Eq)]
pub struct Record {
    /// The fields, in column order.
    pub fields: Vec<Vec<u8>>,
}

impl View for Record {
    type V = Seq<Seq<u8>>;

    open spec fn view(&self) -> Seq<Seq<u8>> {
        self.fields.deep_view()
    }
}

impl DeepView for Record {
    type V = Seq<Seq<u8>>;

    open spec fn deep_view(&self) -> Seq<Seq<u8>> {
        self.view()
    }
}

/// Copies one byte-string field.
pub(crate) fn copy_bytes(s: &Vec<u8>) -> (r: Vec<u8>)
    ensures
        r@ == s@,
{
    let r = sub_bytes(s, 0, s.len());
    proof {
        assert(r@ =~= s@);
    }
    r
}

impl Record {
    /// Builds a record from an ordered sequence of field values.
    pub fn from_fields(fields: Vec<Vec<u8>>) -> (r: Record)
        ensures
            r@ == fields.deep_view(),
    {
        Record { fields }
    }

    /// The number of fields.
    pub fn len(&self) -> (r: usize)
        ensures
            r == self@.len(),
    {
        self.fields.len()
    }

    /// Positional access: the field at a 0-based offset, absent when the
    /// offset is at or beyond the field count.
    pub fn get(&self, idx: usize) -> (r: Option<&Vec<u8>>)
        ensures
            match r {
                Some(f) => idx < self@.len() && f@ == self@[idx as int],
                None => idx >= self@.len(),
            },
    {
        if idx < self.fields.len() {
            let f = &self.fields[idx];
            proof {
                assert(f@ =~= self@[idx as int]);
            }
            Some(f)
        } else {
            None
        }
    }

    /// A copy of this record with the field at `idx` replaced by `value`
    /// and every other field kept.
    pub fn with_field(&self, idx: usize, value: &Vec<u8>) -> (r: Record)
        requires
            idx < self@.len(),
        ensures
            r@ == self@.update(idx as int, value@),
    {
        let mut fields: Vec<Vec<u8>> = Vec::new();
        let mut i: usize = 0;
        while i < self.fields.len()
            invariant
                i <= self.fields.len(),
                idx < self.fields.len(),
                fields.deep_view() =~= self@.update(idx as int, value@).take(i as int),
            decreases self.fields.len() - i,
        {
            let ghost fields0 = fields.deep_view();
            if i == idx {
                fields.push(copy_bytes(value));
                proof {
                    assert(fields.deep_view() =~~= fields0.push(value@));
                }
            } else {
                fields.push(copy_bytes(&self.fields[i]));
                proof {
                    assert(fields.deep_view() =~~= fields0.push(self@[i as int]));
                }
            }
            proof {
                assert(fields.deep_view() =~~= self@.update(idx as int, value@).take(i + 1));
            }
            i = i + 1;
        }
        let r = Record { fields };
        proof {
            assert(r@ =~~= self@.update(idx as int, value@));
        }
        r
    }

    /// A field-for-field copy of this record.
    pub fn duplicate(&self) -> (r: Record)
        ensures
            r@ == self@,
    {
        let mut fields: Vec<Vec<u8>> = Vec::new();
        let mut i: usize = 0;
        while i < self.fields.len()
            invariant
                i <= self.fields.len(),
                fields.deep_view() =~= self@.take(i as int),
            decreases self.fields.len() - i,
        {
            let ghost fields0 = fields.deep_view();
            fields.push(copy_bytes(&self.fields[i]));
            proof {
                assert(fields.deep_view() =~~= fields0.push(self@[i as int]));
                assert(fields.deep_view() =~~= self@.take(i + 1));
            }
            i = i + 1;
        }
        let r = Record { fields };
        proof {
            assert(r@ =~~= self@);
        }
        r
    }
}

} // verus!
