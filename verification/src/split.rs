//! Splitting algorithms: the three policies that turn one field value into
//! an ordered sequence of pieces, together with their specifications.
//!
//! Values are byte strings. A separator occurrence is a non-overlapping
//! match found scanning left to right, as the conventional string-split
//! operation finds them.

use crate::policy::SplitPolicy;
use vstd::prelude::*;

verus! {

/// The pieces a policy produces for a field value.
pub open spec fn spec_split(s: Seq<u8>, sep: Seq<u8>, policy: SplitPolicy) -> Seq<Seq<u8>> {
    match policy {
        SplitPolicy::Simple => spec_split_simple(s, sep),
        SplitPolicy::Suffix => spec_collect_suffix(s, sep, false),
        SplitPolicy::SuffixWithEnd => spec_collect_suffix(s, sep, true),
    }
}

/// `sep` occurs in `s` at byte position `pos`.
pub open spec fn match_at(s: Seq<u8>, sep: Seq<u8>, pos: int) -> bool {
    &&& 0 <= pos
    &&& pos + sep.len() <= s.len()
    &&& s.subrange(pos, pos + sep.len()) == sep
}

/// `s` ends with `sep`.
pub open spec fn spec_ends_with(s: Seq<u8>, sep: Seq<u8>) -> bool {
    match_at(s, sep, s.len() - sep.len())
}

/// The pieces the simple policy emits while scanning `s` from position
/// `from`, where `start` is the beginning of the piece being accumulated:
/// every non-overlapping occurrence of `sep` ends the current piece, and
/// the remainder of `s` is the final piece.
pub open spec fn spec_split_from(s: Seq<u8>, sep: Seq<u8>, from: int, start: int) -> Seq<Seq<u8>>
    decreases s.len() - from,
        when 0 <= from && sep.len() >= 1
{
    if from + sep.len() > s.len() {
        seq![s.subrange(start, s.len() as int)]
    } else if match_at(s, sep, from) {
        seq![s.subrange(start, from)] + spec_split_from(s, sep, from + sep.len(), from + sep.len())
    } else {
        spec_split_from(s, sep, from + 1, start)
    }
}

/// Simple split: `s` cut at every non-overlapping occurrence of `sep`.
/// Occurrences at the start, at the end, or adjacent to one another
/// contribute empty pieces; a separator-free `s` gives the single piece `s`.
pub open spec fn spec_split_simple(s: Seq<u8>, sep: Seq<u8>) -> Seq<Seq<u8>> {
    spec_split_from(s, sep, 0, 0)
}

/// The prefixes the two suffix policies emit for the occurrences of `sep`
/// at or after position `from`. With `end` the prefix is cut after the
/// occurrence and every occurrence counts; without `end` the prefix is cut
/// before the occurrence, and occurrences at position 0 or reaching the end
/// of `s` are skipped.
pub open spec fn spec_collect_from(s: Seq<u8>, sep: Seq<u8>, end: bool, from: int) -> Seq<Seq<u8>>
    decreases s.len() - from,
        when 0 <= from && sep.len() >= 1
{
    if from + sep.len() > s.len() {
        seq![]
    } else if match_at(s, sep, from) {
        let rest = spec_collect_from(s, sep, end, from + sep.len());
        if end {
            seq![s.subrange(0, from + sep.len())] + rest
        } else if from != 0 && from + sep.len() != s.len() {
            seq![s.subrange(0, from)] + rest
        } else {
            rest
        }
    } else {
        spec_collect_from(s, sep, end, from + 1)
    }
}

/// The full result of a suffix policy: the emitted prefixes, then `s`
/// itself — except that with `end` the final `s` is left out when `s`
/// already ends with `sep` (the last emitted prefix is `s` then).
pub open spec fn spec_collect_suffix(s: Seq<u8>, sep: Seq<u8>, end: bool) -> Seq<Seq<u8>> {
    spec_collect_from(s, sep, end, 0) + if !end || !spec_ends_with(s, sep) {
        seq![s]
    } else {
        seq![]
    }
}

/// Copies `s[start..end]` into a fresh byte string.
pub(crate) fn sub_bytes(s: &Vec<u8>, start: usize, end: usize) -> (r: Vec<u8>)
    requires
        start <= end <= s.len(),
    ensures
        r@ == s@.subrange(start as int, end as int),
{
    let mut r: Vec<u8> = Vec::new();
    let mut i: usize = start;
    while i < end
        invariant
            start <= i <= end <= s.len(),
            r@ == s@.subrange(start as int, i as int),
        decreases end - i,
    {
        r.push(s[i]);
        proof {
            assert(s@.subrange(start as int, i + 1) =~= s@.subrange(start as int, i as int).push(
                s@[i as int],
            ));
        }
        i = i + 1;
    }
    r
}

/// `sep` occurs in `s` at position `pos`.
fn is_match(s: &Vec<u8>, sep: &Vec<u8>, pos: usize) -> (r: bool)
    requires
        pos + sep.len() <= s.len(),
    ensures
        r == match_at(s@, sep@, pos as int),
{
    let mut k: usize = 0;
    while k < sep.len()
        invariant
            pos + sep.len() <= s.len(),
            k <= sep.len(),
            forall|j: int| 0 <= j < k ==> s@[pos + j] == sep@[j],
        decreases sep.len() - k,
    {
        if s[pos + k] != sep[k] {
            proof {
                if match_at(s@, sep@, pos as int) {
                    assert(s@.subrange(pos as int, pos + sep@.len())[k as int] == sep@[k as int]);
                }
            }
            return false;
        }
        k = k + 1;
    }
    proof {
        assert(s@.subrange(pos as int, pos + sep@.len()) =~= sep@);
    }
    true
}

/// `s` ends with `sep`.
fn has_suffix(s: &Vec<u8>, sep: &Vec<u8>) -> (r: bool)
    ensures
        r == spec_ends_with(s@, sep@),
{
    if sep.len() <= s.len() {
        is_match(s, sep, s.len() - sep.len())
    } else {
        false
    }
}

/// Growing-prefix split. For every non-overlapping occurrence of `sep` in
/// `s` it emits the prefix of `s` cut after the occurrence (with `end`) or
/// before it (without `end`, skipping occurrences at the start or at the
/// very end of `s`); then `s` itself is appended, unless `end` is set and
/// `s` already ends with `sep`.
pub fn collect_suffix(s: &Vec<u8>, sep: &Vec<u8>, end: bool) -> (r: Vec<Vec<u8>>)
    requires
        sep.len() >= 1,
    ensures
        r.deep_view() == spec_collect_suffix(s@, sep@, end),
{
    let mut ret: Vec<Vec<u8>> = Vec::new();
    let mut cur: usize = 0;
    if sep.len() <= s.len() {
        let last = s.len() - sep.len();
        while cur <= last
            invariant
                1 <= sep.len() <= s.len(),
                last == s.len() - sep.len(),
                cur <= s.len(),
                spec_collect_from(s@, sep@, end, 0) == ret.deep_view() + spec_collect_from(
                    s@,
                    sep@,
                    end,
                    cur as int,
                ),
            decreases s.len() - cur,
        {
            let ghost prev = cur as int;
            let ghost ret0 = ret.deep_view();
            if is_match(s, sep, cur) {
                if end {
                    let piece = sub_bytes(s, 0, cur + sep.len());
                    ret.push(piece);
                    proof {
                        assert(ret.deep_view() =~~= ret0.push(s@.subrange(0, prev + sep@.len())));
                    }
                } else if cur != 0 && cur + sep.len() != s.len() {
                    let piece = sub_bytes(s, 0, cur);
                    ret.push(piece);
                    proof {
                        assert(ret.deep_view() =~~= ret0.push(s@.subrange(0, prev)));
                    }
                }
                cur = cur + sep.len();
            } else {
                cur = cur + 1;
            }
            proof {
                assert(ret0 + spec_collect_from(s@, sep@, end, prev) =~~= ret.deep_view()
                    + spec_collect_from(s@, sep@, end, cur as int));
            }
        }
    }
    proof {
        assert(spec_collect_from(s@, sep@, end, cur as int) =~= Seq::<Seq<u8>>::empty());
        assert(ret.deep_view() =~~= spec_collect_from(s@, sep@, end, 0));
    }
    if !end || !has_suffix(s, sep) {
        let ghost ret1 = ret.deep_view();
        let whole = sub_bytes(s, 0, s.len());
        proof {
            assert(whole@ =~= s@);
        }
        ret.push(whole);
        proof {
            assert(ret.deep_view() =~~= ret1.push(s@));
            assert(ret.deep_view() =~~= spec_collect_suffix(s@, sep@, end));
        }
    } else {
        proof {
            assert(ret.deep_view() =~~= spec_collect_suffix(s@, sep@, end));
        }
    }
    ret
}

/// Simple split: cuts `s` at every non-overlapping occurrence of `sep`.
pub fn split_simple(s: &Vec<u8>, sep: &Vec<u8>) -> (r: Vec<Vec<u8>>)
    requires
        sep.len() >= 1,
    ensures
        r.deep_view() == spec_split_simple(s@, sep@),
{
    let mut ret: Vec<Vec<u8>> = Vec::new();
    let mut start: usize = 0;
    let mut cur: usize = 0;
    if sep.len() <= s.len() {
        let last = s.len() - sep.len();
        while cur <= last
            invariant
                1 <= sep.len() <= s.len(),
                last == s.len() - sep.len(),
                start <= cur <= s.len(),
                spec_split_simple(s@, sep@) == ret.deep_view() + spec_split_from(
                    s@,
                    sep@,
                    cur as int,
                    start as int,
                ),
            decreases s.len() - cur,
        {
            let ghost prev = cur as int;
            let ghost start0 = start as int;
            let ghost ret0 = ret.deep_view();
            if is_match(s, sep, cur) {
                let piece = sub_bytes(s, start, cur);
                ret.push(piece);
                proof {
                    assert(ret.deep_view() =~~= ret0.push(s@.subrange(start0, prev)));
                }
                cur = cur + sep.len();
                start = cur;
            } else {
                cur = cur + 1;
            }
            proof {
                assert(ret0 + spec_split_from(s@, sep@, prev, start0) =~~= ret.deep_view()
                    + spec_split_from(s@, sep@, cur as int, start as int));
            }
        }
    }
    let ghost ret1 = ret.deep_view();
    let tail = sub_bytes(s, start, s.len());
    ret.push(tail);
    proof {
        assert(ret.deep_view() =~~= ret1.push(s@.subrange(start as int, s@.len() as int)));
        assert(ret.deep_view() =~~= spec_split_simple(s@, sep@));
    }
    ret
}

/// Splits a field value into pieces with the separator, according to the
/// chosen policy.
pub fn split(s: &Vec<u8>, sep: &Vec<u8>, policy: &SplitPolicy) -> (r: Vec<Vec<u8>>)
    requires
        sep.len() >= 1,
    ensures
        r.deep_view() == spec_split(s@, sep@, *policy),
{
    match policy {
        SplitPolicy::Simple => split_simple(s, sep),
        SplitPolicy::Suffix => collect_suffix(s, sep, false),
        SplitPolicy::SuffixWithEnd => collect_suffix(s, sep, true),
    }
}

/// Pieces rejoined with the separator between them.
pub open spec fn spec_join(pieces: Seq<Seq<u8>>, sep: Seq<u8>) -> Seq<u8>
    decreases pieces.len(),
{
    if pieces.len() == 0 {
        seq![]
    } else if pieces.len() == 1 {
        pieces[0]
    } else {
        pieces[0] + sep + spec_join(pieces.drop_first(), sep)
    }
}

proof fn lemma_no_match_split_from(s: Seq<u8>, sep: Seq<u8>, from: int, start: int)
    requires
        0 <= from,
        sep.len() >= 1,
        forall|pos: int| !match_at(s, sep, pos),
    ensures
        spec_split_from(s, sep, from, start) == seq![s.subrange(start, s.len() as int)],
    decreases s.len() - from,
{
    if from + sep.len() > s.len() {
    } else {
        lemma_no_match_split_from(s, sep, from + 1, start);
    }
}

proof fn lemma_no_match_collect_from(s: Seq<u8>, sep: Seq<u8>, end: bool, from: int)
    requires
        0 <= from,
        sep.len() >= 1,
        forall|pos: int| !match_at(s, sep, pos),
    ensures
        spec_collect_from(s, sep, end, from) == Seq::<Seq<u8>>::empty(),
    decreases s.len() - from,
{
    if from + sep.len() > s.len() {
        assert(spec_collect_from(s, sep, end, from) =~= Seq::<Seq<u8>>::empty());
    } else {
        lemma_no_match_collect_from(s, sep, end, from + 1);
    }
}

/// When the separator does not occur in a non-empty `s`, every policy
/// returns the single piece `s`.
pub proof fn lemma_no_occurrence_single_piece(s: Seq<u8>, sep: Seq<u8>, policy: SplitPolicy)
    requires
        s.len() > 0,
        sep.len() >= 1,
        forall|pos: int| !match_at(s, sep, pos),
    ensures
        spec_split(s, sep, policy) == seq![s],
{
    assert(s.subrange(0, s.len() as int) =~= s);
    lemma_no_match_split_from(s, sep, 0, 0);
    lemma_no_match_collect_from(s, sep, false, 0);
    lemma_no_match_collect_from(s, sep, true, 0);
    assert(Seq::<Seq<u8>>::empty() + seq![s] =~= seq![s]);
}

proof fn lemma_split_join_from(s: Seq<u8>, sep: Seq<u8>, from: int, start: int)
    requires
        sep.len() >= 1,
        0 <= start <= from,
        from <= s.len(),
    ensures
        spec_split_from(s, sep, from, start).len() >= 1,
        spec_join(spec_split_from(s, sep, from, start), sep) == s.subrange(
            start,
            s.len() as int,
        ),
    decreases s.len() - from,
{
    if from + sep.len() > s.len() {
    } else if match_at(s, sep, from) {
        let next = from + sep.len();
        lemma_split_join_from(s, sep, next, next);
        let rest = spec_split_from(s, sep, next, next);
        let pieces = seq![s.subrange(start, from)] + rest;
        assert(pieces.drop_first() =~= rest);
        assert(spec_join(pieces, sep) == s.subrange(start, from) + sep + spec_join(rest, sep));
        assert(s.subrange(start, from) + sep + s.subrange(next, s.len() as int) =~= s.subrange(
            start,
            s.len() as int,
        ));
    } else {
        lemma_split_join_from(s, sep, from + 1, start);
    }
}

/// Round trip: rejoining the pieces of a simple split with the separator
/// reproduces the input exactly.
pub proof fn lemma_simple_split_round_trip(s: Seq<u8>, sep: Seq<u8>)
    requires
        sep.len() >= 1,
    ensures
        spec_join(spec_split_simple(s, sep), sep) == s,
{
    lemma_split_join_from(s, sep, 0, 0);
    assert(s.subrange(0, s.len() as int) =~= s);
}

} // verus!
