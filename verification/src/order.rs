//! The order of estimated calls by reference time, and the stable sort of the
//! calls of a journey.
use vstd::prelude::*;
use core::cmp::Ordering;
use itertools::Itertools;
use vstd::std_specs::cmp::PartialEqSpecImpl;
use vstd::std_specs::cmp::PartialOrdSpecImpl;
use crate::siri::{DateTime, earlier, same_instant};
use crate::objects::EstimatedCall;

verus! {

/// `a` comes strictly before `b`: both have a reference time and that of `a`
/// is the earlier. A call without a reference time is tied with every call.
pub open spec fn precedes(a: EstimatedCall, b: EstimatedCall) -> bool {
    match (a.reference_time_of(), b.reference_time_of()) {
        (Some(x), Some(y)) => earlier(x, y),
        _ => false,
    }
}

/// Neither call comes before the other.
pub open spec fn tied(a: EstimatedCall, b: EstimatedCall) -> bool {
    !precedes(a, b) && !precedes(b, a)
}

/// The comparison of two calls by reference time.
pub open spec fn order_of(a: EstimatedCall, b: EstimatedCall) -> Ordering {
    if precedes(a, b) {
        Ordering::Less
    } else if precedes(b, a) {
        Ordering::Greater
    } else {
        Ordering::Equal
    }
}

/// Both calls have the same reference time, or neither has one.
pub open spec fn same_reference_time(a: EstimatedCall, b: EstimatedCall) -> bool {
    match (a.reference_time_of(), b.reference_time_of()) {
        (Some(x), Some(y)) => same_instant(x, y),
        (None, None) => true,
        _ => false,
    }
}

/// No call comes after a later one.
pub open spec fn sorted_calls(s: Seq<EstimatedCall>) -> bool {
    forall|i: int, j: int| 0 <= i < j < s.len() ==> !precedes(#[trigger] s[j], #[trigger] s[i])
}

/// `r[i]` is `v[p[i]]`, and `p` is a permutation of the indices of `v`.
pub open spec fn permutes(p: Seq<int>, r: Seq<EstimatedCall>, v: Seq<EstimatedCall>) -> bool {
    &&& p.len() == v.len()
    &&& r.len() == v.len()
    &&& forall|i: int| 0 <= i < p.len() ==> 0 <= #[trigger] p[i] < v.len() && r[i] == v[p[i]]
    &&& forall|i: int, j: int| 0 <= i < j < p.len() ==> #[trigger] p[i] != #[trigger] p[j]
}

/// `r` holds the calls of `v`, sorted by reference time, tied calls in the
/// order they have in `v`.
pub open spec fn is_stable_sort(r: Seq<EstimatedCall>, v: Seq<EstimatedCall>) -> bool {
    &&& sorted_calls(r)
    &&& exists|p: Seq<int>|
        {
            &&& #[trigger] permutes(p, r, v)
            &&& forall|i: int, j: int|
                0 <= i < j < r.len() && tied(#[trigger] r[i], #[trigger] r[j]) ==> p[i] < p[j]
        }
}

/// The comparison by reference time is a total order on the calls of `v`:
/// "not after" is transitive among them.
pub open spec fn orderable(v: Seq<EstimatedCall>) -> bool {
    forall|i: int, j: int, k: int|
        0 <= i < v.len() && 0 <= j < v.len() && 0 <= k < v.len() && !precedes(
            #[trigger] v[j],
            #[trigger] v[i],
        ) && !precedes(#[trigger] v[k], v[j]) ==> !precedes(v[k], v[i])
}

/// Every call has a reference time, or all the calls that have one have the
/// same.
pub open spec fn orderable_by_times(v: Seq<EstimatedCall>) -> bool {
    ||| forall|i: int| 0 <= i < v.len() ==> (#[trigger] v[i]).reference_time_of() is Some
    ||| forall|i: int, j: int|
        0 <= i < v.len() && 0 <= j < v.len() && (#[trigger] v[i]).reference_time_of() is Some
            && (#[trigger] v[j]).reference_time_of() is Some ==> same_instant(
            v[i].reference_time_of()->0,
            v[j].reference_time_of()->0,
        )
}

/// The comparison is a total order on the calls exactly when every call has
/// a reference time or all those that have one share it.
pub proof fn lemma_orderable_by_times(v: Seq<EstimatedCall>)
    ensures
        orderable(v) == orderable_by_times(v),
{
    if orderable_by_times(v) {
        assert(orderable(v));
    } else {
        let i = choose|i: int| 0 <= i < v.len() && (#[trigger] v[i]).reference_time_of() is None;
        let (j, k) = choose|j: int, k: int|
            0 <= j < v.len() && 0 <= k < v.len() && (#[trigger] v[j]).reference_time_of() is Some
                && (#[trigger] v[k]).reference_time_of() is Some && !same_instant(
                v[j].reference_time_of()->0,
                v[k].reference_time_of()->0,
            );
        let x = v[j].reference_time_of()->0;
        let y = v[k].reference_time_of()->0;
        if earlier(x, y) {
            assert(!precedes(v[i], v[k]) && !precedes(v[j], v[i]) && precedes(v[j], v[k]));
        } else {
            assert(earlier(y, x));
            assert(!precedes(v[i], v[j]) && !precedes(v[k], v[i]) && precedes(v[k], v[j]));
        }
    }
}

/// Whether the comparison by reference time is a total order on `calls`.
pub fn calls_orderable(calls: &Vec<EstimatedCall>) -> (res: bool)
    ensures
        res == orderable(calls@),
{
    proof {
        lemma_orderable_by_times(calls@);
    }
    let mut all_timed = true;
    // the first reference time met, if any, and whether all met so far share it
    let mut first: Option<DateTime> = None;
    let mut all_same = true;
    let mut i: usize = 0;
    while i < calls.len()
        invariant
            i <= calls.len(),
            all_timed == forall|a: int| 0 <= a < i ==> (#[trigger] calls@[a]).reference_time_of() is Some,
            first is None <==> forall|a: int| 0 <= a < i ==> (#[trigger] calls@[a]).reference_time_of() is None,
            first matches Some(f) ==> exists|a: int| 0 <= a < i && (#[trigger] calls@[a]).reference_time_of() == Some(f),
            all_same == forall|a: int, b: int|
                0 <= a < i && 0 <= b < i && (#[trigger] calls@[a]).reference_time_of() is Some
                    && (#[trigger] calls@[b]).reference_time_of() is Some ==> same_instant(
                    calls@[a].reference_time_of()->0,
                    calls@[b].reference_time_of()->0,
                ),
            all_same && first is Some ==> forall|a: int| 0 <= a < i && (#[trigger] calls@[a]).reference_time_of() is Some ==>
                same_instant(calls@[a].reference_time_of()->0, first->0),
        decreases calls.len() - i,
    {
        let t = calls[i].reference_time();
        match t {
            None => {
                all_timed = false;
            },
            Some(d) => {
                match &first {
                    None => {
                        first = Some(d);
                    },
                    Some(f) => {
                        if !(f.seconds == d.seconds && f.nanos == d.nanos) {
                            all_same = false;
                        }
                    },
                }
            },
        }
        i = i + 1;
    }
    all_timed || all_same
}

/// An injective map of the indices `0..n` into `0..n` reaches every index.
proof fn lemma_permutation_onto(p: Seq<int>, x: int)
    requires
        forall|i: int| 0 <= i < p.len() ==> 0 <= #[trigger] p[i] < p.len(),
        forall|i: int, j: int| 0 <= i < j < p.len() ==> #[trigger] p[i] != #[trigger] p[j],
        0 <= x < p.len(),
    ensures
        exists|i: int| 0 <= i < p.len() && p[i] == x,
{
    let n = p.len() as int;
    assert(p.no_duplicates()) by {
        assert forall|i: int, j: int| 0 <= i < p.len() && 0 <= j < p.len() && i != j implies p[i]
            != p[j] by {
            if i < j {
                assert(p[i] != p[j]);
            } else {
                assert(p[j] != p[i]);
            }
        }
    }
    p.unique_seq_to_set();
    vstd::set_lib::lemma_int_range(0, n);
    let range = vstd::set_lib::set_int_range(0, n);
    assert(p.to_set().subset_of(range));
    vstd::set_lib::lemma_len_subset(p.to_set(), range);
    vstd::set_lib::lemma_subset_equality(p.to_set(), range);
    assert(range.contains(x));
    assert(p.to_set().contains(x));
}

/// The index `m` of `v` comes before the index `n` in a stable sort: its
/// call comes before, or they are tied and `m` is the earlier index.
pub open spec fn sorts_before(v: Seq<EstimatedCall>, m: int, n: int) -> bool {
    precedes(v[m], v[n]) || (tied(v[m], v[n]) && m < n)
}

proof fn lemma_stable_positions(
    r: Seq<EstimatedCall>,
    v: Seq<EstimatedCall>,
    p: Seq<int>,
    i: int,
    j: int,
)
    requires
        sorted_calls(r),
        permutes(p, r, v),
        forall|a: int, b: int|
            0 <= a < b < r.len() && tied(#[trigger] r[a], #[trigger] r[b]) ==> p[a] < p[b],
        0 <= i < j < r.len(),
    ensures
        sorts_before(v, p[i], p[j]),
{
    assert(r[i] == v[p[i]] && r[j] == v[p[j]]);
    assert(!precedes(r[j], r[i]));
}

proof fn lemma_same_index(
    r1: Seq<EstimatedCall>,
    r2: Seq<EstimatedCall>,
    v: Seq<EstimatedCall>,
    p1: Seq<int>,
    p2: Seq<int>,
    i: int,
)
    requires
        sorted_calls(r1),
        sorted_calls(r2),
        permutes(p1, r1, v),
        permutes(p2, r2, v),
        forall|a: int, b: int|
            0 <= a < b < r1.len() && tied(#[trigger] r1[a], #[trigger] r1[b]) ==> p1[a] < p1[b],
        forall|a: int, b: int|
            0 <= a < b < r2.len() && tied(#[trigger] r2[a], #[trigger] r2[b]) ==> p2[a] < p2[b],
        0 <= i < v.len(),
    ensures
        p1[i] == p2[i],
    decreases i,
{
    assert forall|j: int| 0 <= j < i implies p1[j] == p2[j] by {
        lemma_same_index(r1, r2, v, p1, p2, j);
    }
    let x = p1[i];
    let y = p2[i];
    if x != y {
        lemma_permutation_onto(p2, x);
        let i2 = choose|k: int| 0 <= k < p2.len() && p2[k] == x;
        lemma_permutation_onto(p1, y);
        let i1 = choose|k: int| 0 <= k < p1.len() && p1[k] == y;
        if i2 < i {
            assert(p1[i2] == x);
            assert(p1[i2] != p1[i]);
        }
        if i1 < i {
            assert(p2[i1] == y);
            assert(p2[i1] != p2[i]);
        }
        lemma_stable_positions(r2, v, p2, i, i2);
        lemma_stable_positions(r1, v, p1, i, i1);
        assert(sorts_before(v, y, x) && sorts_before(v, x, y));
    }
}

/// The stable sort of a sequence of calls is unique: two results that are
/// both stable sorts of the same calls are the same.
pub proof fn law_stable_sort_unique(r1: Seq<EstimatedCall>, r2: Seq<EstimatedCall>, v: Seq<EstimatedCall>)
    requires
        is_stable_sort(r1, v),
        is_stable_sort(r2, v),
    ensures
        r1 == r2,
{
    let p1 = choose|p: Seq<int>|
        {
            &&& #[trigger] permutes(p, r1, v)
            &&& forall|i: int, j: int|
                0 <= i < j < r1.len() && tied(#[trigger] r1[i], #[trigger] r1[j]) ==> p[i] < p[j]
        };
    let p2 = choose|p: Seq<int>|
        {
            &&& #[trigger] permutes(p, r2, v)
            &&& forall|i: int, j: int|
                0 <= i < j < r2.len() && tied(#[trigger] r2[i], #[trigger] r2[j]) ==> p[i] < p[j]
        };
    assert forall|i: int| 0 <= i < r1.len() implies r1[i] == r2[i] by {
        lemma_same_index(r1, r2, v, p1, p2, i);
    }
    assert(r1 =~= r2);
}

/// A call comes before another exactly when both have a reference time and
/// the first one's is earlier: fewer seconds, or as many seconds and fewer
/// nanoseconds.
pub proof fn law_precedes_by_reference_times(a: EstimatedCall, b: EstimatedCall)
    ensures
        precedes(a, b) == (a.reference_time_of() is Some && b.reference_time_of() is Some && (
        a.reference_time_of()->0.seconds < b.reference_time_of()->0.seconds || (
        a.reference_time_of()->0.seconds == b.reference_time_of()->0.seconds
            && a.reference_time_of()->0.nanos < b.reference_time_of()->0.nanos))),
{
}

/// The comparison is antisymmetric: `a` is before `b` exactly when `b` is
/// after `a`; two calls compare equal exactly when they are tied, which calls
/// with the same reference time are.
pub proof fn law_order_antisymmetric(a: EstimatedCall, b: EstimatedCall)
    ensures
        (order_of(a, b) == Ordering::Less) == (order_of(b, a) == Ordering::Greater),
        (order_of(a, b) == Ordering::Equal) == tied(a, b),
        same_reference_time(a, b) ==> order_of(a, b) == Ordering::Equal,
{
}

impl EstimatedCall {
    /// Compares two calls by reference time; a call without one is tied with
    /// every call.
    pub fn cmp(&self, other: &Self) -> (res: Ordering)
        ensures
            res == order_of(*self, *other),
    {
        let a = self.reference_time();
        let b = other.reference_time();
        match (a, b) {
            (Some(x), Some(y)) => {
                if x.seconds < y.seconds || (x.seconds == y.seconds && x.nanos < y.nanos) {
                    Ordering::Less
                } else if y.seconds < x.seconds || (y.seconds == x.seconds && y.nanos < x.nanos) {
                    Ordering::Greater
                } else {
                    Ordering::Equal
                }
            },
            _ => Ordering::Equal,
        }
    }
}

impl PartialEq for EstimatedCall {
    fn eq(&self, other: &Self) -> (res: bool) {
        let a = self.reference_time();
        let b = other.reference_time();
        match (a, b) {
            (Some(x), Some(y)) => x.seconds == y.seconds && x.nanos == y.nanos,
            (None, None) => true,
            _ => false,
        }
    }
}

impl PartialEqSpecImpl for EstimatedCall {
    open spec fn obeys_eq_spec() -> bool {
        true
    }

    open spec fn eq_spec(&self, other: &Self) -> bool {
        same_reference_time(*self, *other)
    }
}

impl PartialOrd for EstimatedCall {
    fn partial_cmp(&self, other: &Self) -> (res: Option<Ordering>) {
        Some(self.cmp(other))
    }
}

impl PartialOrdSpecImpl for EstimatedCall {
    open spec fn obeys_partial_cmp_spec() -> bool {
        true
    }

    open spec fn partial_cmp_spec(&self, other: &Self) -> Option<Ordering> {
        Some(order_of(*self, *other))
    }
}

/// Stable sort of the calls by reference time, through `Itertools::sorted_by`
/// with `EstimatedCall::cmp` as the comparison. std's documentation of
/// `slice::sort_by`, which `sorted_by` calls, says that the sort is stable and
/// may panic where the comparison is not a total order; this contract claims
/// that the result holds the same calls, sorted, with tied calls in the
/// order they were given in.
#[verifier::external_body]
pub(crate) fn sort_calls(calls: Vec<EstimatedCall>) -> (res: Vec<EstimatedCall>)
    requires
        orderable(calls@),
    ensures
        is_stable_sort(res@, calls@),
{
    calls.into_iter().sorted_by(|a, b| a.cmp(b)).collect()
}

} // verus!
