//! Gaps in what is known of an actor's versions: inclusive ranges, kept collapsed by `rangemap`.

use vstd::prelude::*;
#[allow(unused_imports)]
use vstd::set_lib::{lemma_int_range, lemma_len_subset, set_int_range};

verus! {

/// `rangemap::RangeInclusiveSet`.
#[verifier::external_type_specification]
#[verifier::external_body]
#[verifier::reject_recursive_types(T)]
#[verifier::reject_recursive_types(StepFnsT)]
pub struct ExRangeInclusiveSet<T, StepFnsT>(rangemap::RangeInclusiveSet<T, StepFnsT>);

/// The versions that a range set covers.
pub uninterp spec fn covered(set: rangemap::RangeInclusiveSet<u64>) -> Set<u64>;

/// The versions of an inclusive range.
pub open spec fn range_versions(start: u64, end: u64) -> Set<u64> {
    Set::new(|v: u64| start <= v <= end)
}

/// Whether one of the ranges holds the version.
pub open spec fn covers(ranges: Seq<(u64, u64)>, v: u64) -> bool {
    exists|i: int| 0 <= i < ranges.len() && (#[trigger] ranges[i]).0 <= v <= ranges[i].1
}

/// The versions that the ranges hold.
pub open spec fn coverage(ranges: Seq<(u64, u64)>) -> Set<u64> {
    Set::new(|v: u64| covers(ranges, v))
}

/// No range ends before it starts.
pub open spec fn ordered(ranges: Seq<(u64, u64)>) -> bool {
    forall|i: int| 0 <= i < ranges.len() ==> (#[trigger] ranges[i]).0 <= ranges[i].1
}

/// The ranges are in ascending order, and between each two of them is a version that neither
/// holds.
pub open spec fn collapsed(ranges: Seq<(u64, u64)>) -> bool {
    &&& ordered(ranges)
    &&& forall|i: int, j: int|
        0 <= i < j < ranges.len() ==> (#[trigger] ranges[i]).1 + 1 < (#[trigger] ranges[j]).0
}

/// The collapsed ranges that hold the given versions: there is only one such sequence of ranges
/// (see `law_collapsed_ranges_are_unique`).
pub open spec fn collapse(versions: Set<u64>) -> Seq<(u64, u64)> {
    choose|ranges: Seq<(u64, u64)>| collapsed(ranges) && coverage(ranges) == versions
}

/// `rangemap::RangeInclusiveSet::new`: the set that covers nothing.
#[verifier::external_body]
pub(crate) fn new_range_set() -> (set: rangemap::RangeInclusiveSet<u64>)
    ensures
        covered(set) == Set::<u64>::empty(),
{
    rangemap::RangeInclusiveSet::new()
}

/// `rangemap::RangeInclusiveSet::insert`: covers the range as well. It panics on a range that ends
/// before it starts.
#[verifier::external_body]
pub(crate) fn insert_range(set: &mut rangemap::RangeInclusiveSet<u64>, start: u64, end: u64)
    requires
        start <= end,
    ensures
        covered(*final(set)) == covered(*old(set)).union(range_versions(start, end)),
{
    set.insert(start..=end);
}

/// `rangemap::RangeInclusiveSet::iter`: the ranges of the set in ascending order. As `insert`
/// joins ranges that overlap or are adjacent, they are collapsed.
#[verifier::external_body]
pub(crate) fn ranges_of(set: &rangemap::RangeInclusiveSet<u64>) -> (ranges: Vec<(u64, u64)>)
    ensures
        collapsed(ranges@),
        coverage(ranges@) == covered(*set),
{
    set.iter().map(|range| (*range.start(), *range.end())).collect()
}

/// Whether no range ends before it starts.
pub fn are_ordered(ranges: &Vec<(u64, u64)>) -> (b: bool)
    ensures
        b == ordered(ranges@),
{
    for i in 0..ranges.len()
        invariant
            forall|k: int| 0 <= k < i ==> (#[trigger] ranges[k]).0 <= ranges[k].1,
    {
        if ranges[i].0 > ranges[i].1 {
            return false;
        }
    }
    true
}

/// Collects gap ranges, in any order and however they overlap, in a range set.
pub fn collect_gaps(rows: &Vec<(u64, u64)>) -> (gaps: rangemap::RangeInclusiveSet<u64>)
    requires
        ordered(rows@),
    ensures
        covered(gaps) == coverage(rows@),
{
    let mut gaps = new_range_set();
    assert(coverage(rows@.take(0)) =~= Set::<u64>::empty());
    for i in 0..rows.len()
        invariant
            ordered(rows@),
            covered(gaps) == coverage(rows@.take(i as int)),
    {
        insert_range(&mut gaps, rows[i].0, rows[i].1);
        proof {
            let before = rows@.take(i as int);
            let after = rows@.take(i + 1);
            assert forall|v: u64| covers(after, v) <==> covers(before, v) || rows[i as int].0 <= v
                <= rows[i as int].1 by {
                if covers(before, v) {
                    let k = choose|k: int|
                        0 <= k < before.len() && (#[trigger] before[k]).0 <= v <= before[k].1;
                    assert(after[k] == before[k]);
                }
                if rows[i as int].0 <= v <= rows[i as int].1 {
                    assert(after[i as int] == rows[i as int]);
                }
                if covers(after, v) {
                    let k = choose|k: int|
                        0 <= k < after.len() && (#[trigger] after[k]).0 <= v <= after[k].1;
                    if k < i {
                        assert(before[k] == after[k]);
                    }
                }
            }
            assert(coverage(after) =~= coverage(before).union(
                range_versions(rows[i as int].0, rows[i as int].1),
            ));
        }
    }
    assert(rows@.take(rows.len() as int) =~= rows@);
    gaps
}

/// Gives the collapsed ranges of a range set.
pub fn collapsed_ranges(set: &rangemap::RangeInclusiveSet<u64>) -> (ranges: Vec<(u64, u64)>)
    ensures
        ranges@ == collapse(covered(*set)),
        collapsed(ranges@),
        coverage(ranges@) == covered(*set),
{
    let ranges = ranges_of(set);
    proof {
        law_collapsed_ranges_are_unique(ranges@, collapse(covered(*set)));
    }
    ranges
}

/// Two collapsed sequences of ranges that hold the same versions are the same sequence: what is
/// already collapsed stays as it is.
pub proof fn law_collapsed_ranges_are_unique(a: Seq<(u64, u64)>, b: Seq<(u64, u64)>)
    requires
        collapsed(a),
        collapsed(b),
        coverage(a) == coverage(b),
    ensures
        a == b,
    decreases a.len(),
{
    assert forall|v: u64| covers(a, v) == covers(b, v) by {
        assert(coverage(a).contains(v) == covers(a, v));
        assert(coverage(b).contains(v) == covers(b, v));
    }
    if a.len() == 0 {
        if b.len() > 0 {
            assert(covers(b, b[0].0));
        }
        assert(a =~= b);
    } else {
        assert(covers(a, a[0].0));
        assert(b.len() > 0);
        assert(covers(b, b[0].0));
        lemma_first_range_is_least(a, b[0].0);
        lemma_first_range_is_least(b, a[0].0);
        assert(a[0].0 == b[0].0);
        if a[0].1 < b[0].1 {
            let v = (a[0].1 + 1) as u64;
            assert(covers(b, v)) by {
                assert(b[0].0 <= v <= b[0].1);
            }
        }
        if b[0].1 < a[0].1 {
            let v = (b[0].1 + 1) as u64;
            assert(covers(a, v)) by {
                assert(a[0].0 <= v <= a[0].1);
            }
        }
        assert(a[0] == b[0]);
        let (ta, tb) = (a.drop_first(), b.drop_first());
        lemma_rest_of_coverage(a);
        lemma_rest_of_coverage(b);
        assert(coverage(ta) =~= coverage(tb));
        law_collapsed_ranges_are_unique(ta, tb);
        assert(a =~= seq![a[0]] + ta);
        assert(b =~= seq![b[0]] + tb);
    }
}

proof fn lemma_first_range_is_least(ranges: Seq<(u64, u64)>, v: u64)
    requires
        collapsed(ranges),
        covers(ranges, v),
    ensures
        ranges.len() > 0,
        ranges[0].0 <= v,
{
    let i = choose|i: int| 0 <= i < ranges.len() && (#[trigger] ranges[i]).0 <= v <= ranges[i].1;
    if i > 0 {
        assert(ranges[0].1 + 1 < ranges[i].0);
        assert(ranges[0].0 <= ranges[0].1);
    }
}

proof fn lemma_rest_of_coverage(ranges: Seq<(u64, u64)>)
    requires
        collapsed(ranges),
        ranges.len() > 0,
    ensures
        collapsed(ranges.drop_first()),
        forall|v: u64| #[trigger]
            covers(ranges.drop_first(), v) <==> covers(ranges, v) && v > ranges[0].1,
{
    let rest = ranges.drop_first();
    assert forall|v: u64| #[trigger] covers(rest, v) <==> covers(ranges, v) && v > ranges[0].1 by {
        if covers(rest, v) {
            let i = choose|i: int| 0 <= i < rest.len() && (#[trigger] rest[i]).0 <= v <= rest[i].1;
            assert(ranges[i + 1] == rest[i]);
            assert(ranges[0].1 + 1 < ranges[i + 1].0);
        }
        if covers(ranges, v) && v > ranges[0].1 {
            let i = choose|i: int|
                0 <= i < ranges.len() && (#[trigger] ranges[i]).0 <= v <= ranges[i].1;
            assert(rest[i - 1] == ranges[i]);
        }
    }
}

/// A range all of whose versions collapsed ranges hold lies within one of them.
proof fn lemma_range_within_one(ranges: Seq<(u64, u64)>, start: u64, end: u64) -> (i: int)
    requires
        collapsed(ranges),
        start <= end,
        forall|v: u64| start <= v <= end ==> #[trigger] covers(ranges, v),
    ensures
        0 <= i < ranges.len(),
        ranges[i].0 <= start,
        end <= ranges[i].1,
{
    assert(covers(ranges, start));
    let i = choose|i: int|
        0 <= i < ranges.len() && (#[trigger] ranges[i]).0 <= start <= ranges[i].1;
    if end > ranges[i].1 {
        let v = (ranges[i].1 + 1) as u64;
        assert(covers(ranges, v));
        let j = choose|j: int| 0 <= j < ranges.len() && (#[trigger] ranges[j]).0 <= v <= ranges[j].1;
        assert(i != j);
        if i < j {
            assert(ranges[i].1 + 1 < ranges[j].0);
        } else {
            assert(ranges[j].1 + 1 < ranges[i].0);
        }
    }
    i
}

/// Collapsed ranges are the fewest that hold their versions: no other ranges that hold the same
/// versions are fewer.
pub proof fn law_collapsed_ranges_are_fewest(ranges: Seq<(u64, u64)>, rows: Seq<(u64, u64)>)
    requires
        collapsed(ranges),
        ordered(rows),
        coverage(rows) == coverage(ranges),
    ensures
        ranges.len() <= rows.len(),
{
    assert forall|v: u64| covers(ranges, v) == #[trigger] covers(rows, v) by {
        assert(coverage(ranges).contains(v) == covers(ranges, v));
        assert(coverage(rows).contains(v) == covers(rows, v));
    }
    // For each collapsed range, a row that holds its first version.
    let rows_at = Seq::new(
        ranges.len(),
        |i: int|
            choose|j: int|
                0 <= j < rows.len() && (#[trigger] rows[j]).0 <= ranges[i].0 <= rows[j].1,
    );
    assert forall|i: int| 0 <= i < ranges.len() implies 0 <= #[trigger] rows_at[i] < rows.len()
        && rows[rows_at[i]].0 <= ranges[i].0 <= rows[rows_at[i]].1 by {
        assert(ranges[i].0 <= ranges[i].1);
        assert(covers(ranges, ranges[i].0));
        assert(covers(rows, ranges[i].0));
    }
    assert forall|i: int, k: int|
        0 <= i < ranges.len() && 0 <= k < ranges.len() && i != k implies rows_at[i]
        != rows_at[k] by {
        if rows_at[i] == rows_at[k] {
            let row = rows[rows_at[i]];
            assert forall|v: u64| row.0 <= v <= row.1 implies #[trigger] covers(ranges, v) by {
                assert(rows[rows_at[i]].0 <= v <= rows[rows_at[i]].1);
                assert(covers(rows, v));
            }
            let m = lemma_range_within_one(ranges, row.0, row.1);
            lemma_same_range(ranges, m, i);
            lemma_same_range(ranges, m, k);
        }
    }
    assert(rows_at.no_duplicates());
    rows_at.unique_seq_to_set();
    lemma_int_range(0, rows.len() as int);
    assert(rows_at.to_set().subset_of(set_int_range(0, rows.len() as int)));
    lemma_len_subset(rows_at.to_set(), set_int_range(0, rows.len() as int));
}

proof fn lemma_same_range(ranges: Seq<(u64, u64)>, m: int, i: int)
    requires
        collapsed(ranges),
        0 <= m < ranges.len(),
        0 <= i < ranges.len(),
        ranges[m].0 <= ranges[i].0 <= ranges[m].1,
    ensures
        m == i,
{
    if m < i {
        assert(ranges[m].1 + 1 < ranges[i].0);
    } else if i < m {
        assert(ranges[i].1 + 1 < ranges[m].0);
        assert(ranges[i].0 <= ranges[i].1);
    }
}

/// The versions below a bound.
spec fn below(versions: Set<u64>, bound: int) -> Set<u64> {
    Set::new(|v: u64| versions.contains(v) && v < bound)
}

proof fn lemma_collapse_below(versions: Set<u64>, bound: nat) -> (ranges: Seq<(u64, u64)>)
    requires
        bound <= u64::MAX + 1,
    ensures
        collapsed(ranges),
        coverage(ranges) == below(versions, bound as int),
    decreases bound,
{
    if bound == 0 {
        let ranges = Seq::<(u64, u64)>::empty();
        assert(coverage(ranges) =~= below(versions, 0));
        ranges
    } else {
        let top = (bound - 1) as u64;
        let rest = lemma_collapse_below(versions, (bound - 1) as nat);
        assert forall|v: u64| #[trigger] covers(rest, v) <==> versions.contains(v) && v < top by {
            assert(coverage(rest).contains(v) == covers(rest, v));
        }
        assert forall|i: int| 0 <= i < rest.len() implies (#[trigger] rest[i]).1 < top by {
            assert(rest[i].0 <= rest[i].1);
            assert(covers(rest, rest[i].1));
        }
        let last = rest.len() - 1;
        let ranges = if !versions.contains(top) {
            rest
        } else if rest.len() > 0 && rest[last].1 + 1 == top {
            rest.update(last, (rest[last].0, top))
        } else {
            rest.push((top, top))
        };
        assert forall|v: u64| #[trigger] covers(ranges, v) <==> versions.contains(v) && v < bound by {
            if covers(ranges, v) {
                let i = choose|i: int|
                    0 <= i < ranges.len() && (#[trigger] ranges[i]).0 <= v <= ranges[i].1;
                if v != top {
                    assert(rest[i].0 <= v <= rest[i].1);
                    assert(covers(rest, v));
                } else if !versions.contains(top) {
                    assert(rest[i].1 < top);
                }
            }
            if versions.contains(v) && v < bound {
                if v == top {
                    assert(ranges[ranges.len() - 1].0 <= v <= ranges[ranges.len() - 1].1);
                } else {
                    assert(covers(rest, v));
                    let i = choose|i: int|
                        0 <= i < rest.len() && (#[trigger] rest[i]).0 <= v <= rest[i].1;
                    assert(ranges[i].0 <= v <= ranges[i].1);
                }
            }
        }
        assert(coverage(ranges) =~= below(versions, bound as int));
        ranges
    }
}

/// Whatever the versions, the collapsed ranges that hold them hold them all, and no other.
pub proof fn law_collapse_keeps_the_versions(versions: Set<u64>)
    ensures
        collapsed(collapse(versions)),
        coverage(collapse(versions)) == versions,
{
    let ranges = lemma_collapse_below(versions, (u64::MAX + 1) as nat);
    assert(below(versions, u64::MAX + 1) =~= versions);
    assert(collapsed(ranges) && coverage(ranges) == versions);
}

/// Rewriting gaps: where the versions that an actor still needs are those of the gaps on record
/// and others, the collapsed ranges that replace the record hold every version that it held.
pub proof fn law_rewriting_loses_no_gap(rows: Seq<(u64, u64)>, needed: Set<u64>, v: u64)
    requires
        coverage(rows).subset_of(needed),
        covers(rows, v),
    ensures
        covers(collapse(needed), v),
{
    law_collapse_keeps_the_versions(needed);
    assert(coverage(rows).contains(v));
    assert(coverage(collapse(needed)).contains(v));
}

/// Rewriting gaps twice writes the same ranges as rewriting them once.
pub proof fn law_rewriting_is_idempotent(versions: Set<u64>)
    ensures
        collapse(coverage(collapse(versions))) == collapse(versions),
{
    law_collapse_keeps_the_versions(versions);
}

/// Versions are collapsed into ranges of which none ends before it starts, and each ends more than
/// one version before the next starts. A version is held by one of them exactly if it is given.
pub proof fn law_collapsed_ranges_lie_apart(versions: Set<u64>, v: u64)
    ensures
        forall|i: int|
            0 <= i < collapse(versions).len() ==> (#[trigger] collapse(versions)[i]).0 <= collapse(
                versions,
            )[i].1,
        forall|i: int, j: int|
            0 <= i < j < collapse(versions).len() ==> (#[trigger] collapse(versions)[i]).1 + 1 < (
            #[trigger] collapse(versions)[j]).0,
        versions.contains(v) <==> exists|i: int|
            0 <= i < collapse(versions).len() && (#[trigger] collapse(versions)[i]).0 <= v
                <= collapse(versions)[i].1,
{
    law_collapse_keeps_the_versions(versions);
    assert(coverage(collapse(versions)).contains(v) == covers(collapse(versions), v));
}

/// Ranges hold a version exactly if one of them starts no later and ends no earlier, whatever the
/// others, and ranges are in order exactly if none ends before it starts.
pub proof fn law_ranges_hold_what_is_between(ranges: Seq<(u64, u64)>, v: u64)
    ensures
        coverage(ranges).contains(v) <==> exists|i: int|
            0 <= i < ranges.len() && (#[trigger] ranges[i]).0 <= v && v <= ranges[i].1,
        ordered(ranges) <==> forall|i: int|
            0 <= i < ranges.len() ==> !((#[trigger] ranges[i]).1 < ranges[i].0),
{
}

} // verus!
