//! Split policies: the names under which the three splitting algorithms
//! are selected, with the permissive default. An unrecognized policy name
//! silently falls back to `Simple`; this is deliberate, not an error.

use vstd::prelude::*;

verus! {

/// One of the three ways to split a field value at a separator.
#[derive(Clone, Copy, Debug, PartialEq, Eq, Structural)]
pub enum SplitPolicy {
    /// Cut at every occurrence of the separator.
    Simple,
    /// Growing prefixes cut before each occurrence.
    Suffix,
    /// Growing prefixes cut after each occurrence.
    SuffixWithEnd,
}

/// The bytes of the policy name `simple`.
pub open spec fn simple_policy_name() -> Seq<u8> {
    seq![115u8, 105u8, 109u8, 112u8, 108u8, 101u8]
}

/// The bytes of the policy name `suffix`.
pub open spec fn suffix_policy_name() -> Seq<u8> {
    seq![115u8, 117u8, 102u8, 102u8, 105u8, 120u8]
}

/// The bytes of the policy name `suffix-end`.
pub open spec fn suffix_end_policy_name() -> Seq<u8> {
    seq![115u8, 117u8, 102u8, 102u8, 105u8, 120u8, 45u8, 101u8, 110u8, 100u8]
}

/// The policy a name selects: `suffix` and `suffix-end` name the two
/// suffix policies; every other name, `simple` included, gives `Simple`.
pub open spec fn spec_policy_from_name(name: Seq<u8>) -> SplitPolicy {
    if name == suffix_policy_name() {
        SplitPolicy::Suffix
    } else if name == suffix_end_policy_name() {
        SplitPolicy::SuffixWithEnd
    } else {
        SplitPolicy::Simple
    }
}

/// The name of a policy, as the configuration writes it.
pub open spec fn spec_policy_name(policy: SplitPolicy) -> Seq<u8> {
    match policy {
        SplitPolicy::Simple => simple_policy_name(),
        SplitPolicy::Suffix => suffix_policy_name(),
        SplitPolicy::SuffixWithEnd => suffix_end_policy_name(),
    }
}

impl SplitPolicy {
    /// Selects the policy a name stands for; unrecognized names fall back
    /// to `Simple`.
    pub fn from_name(name: &Vec<u8>) -> (r: SplitPolicy)
        ensures
            r == spec_policy_from_name(name@),
    {
        if name.len() == 6 && name[0] == 115 && name[1] == 117 && name[2] == 102 && name[3] == 102
            && name[4] == 105 && name[5] == 120 {
            proof {
                assert(name@ =~= suffix_policy_name());
            }
            SplitPolicy::Suffix
        } else if name.len() == 10 && name[0] == 115 && name[1] == 117 && name[2] == 102
            && name[3] == 102 && name[4] == 105 && name[5] == 120 && name[6] == 45
            && name[7] == 101 && name[8] == 110 && name[9] == 100 {
            proof {
                assert(name@ =~= suffix_end_policy_name());
            }
            SplitPolicy::SuffixWithEnd
        } else {
            proof {
                assert(name@ != suffix_policy_name());
                assert(name@ != suffix_end_policy_name());
            }
            SplitPolicy::Simple
        }
    }

    /// The name of this policy.
    pub fn name(&self) -> (r: Vec<u8>)
        ensures
            r@ == spec_policy_name(*self),
    {
        let mut r: Vec<u8> = Vec::new();
        match self {
            SplitPolicy::Simple => {
                r.push(115);
                r.push(105);
                r.push(109);
                r.push(112);
                r.push(108);
                r.push(101);
                proof {
                    assert(r@ =~= simple_policy_name());
                }
            },
            SplitPolicy::Suffix => {
                r.push(115);
                r.push(117);
                r.push(102);
                r.push(102);
                r.push(105);
                r.push(120);
                proof {
                    assert(r@ =~= suffix_policy_name());
                }
            },
            SplitPolicy::SuffixWithEnd => {
                r.push(115);
                r.push(117);
                r.push(102);
                r.push(102);
                r.push(105);
                r.push(120);
                r.push(45);
                r.push(101);
                r.push(110);
                r.push(100);
                proof {
                    assert(r@ =~= suffix_end_policy_name());
                }
            },
        }
        r
    }
}

impl Default for SplitPolicy {
    /// The policy used when the configuration names none: `Simple`.
    fn default() -> (r: Self)
        ensures
            r == SplitPolicy::Simple,
    {
        SplitPolicy::Simple
    }
}

} // verus!
