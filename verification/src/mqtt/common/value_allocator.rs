//! Allocation of values from a closed range, kept as a sorted list of vacant intervals.
use crate::mqtt::packet::packet_id::{pow256, IsPacketId};
use vstd::prelude::*;

verus! {

/// A closed interval `[low, high]` of vacant values.
#[derive(Debug, Clone, Copy)]
struct ValueInterval {
    low: u32,
    high: u32,
}

impl ValueInterval {
    /// The interval holding `value` alone.
    fn new_single(value: u32) -> (r: Self)
        ensures
            r.low == value,
            r.high == value,
    {
        Self { low: value, high: value }
    }

    /// The interval `[low, high]`.
    fn new_range(low: u32, high: u32) -> (r: Self)
        ensures
            r.low == low,
            r.high == high,
    {
        Self { low, high }
    }

    /// Whether `value` lies in the interval.
    fn contains(&self, value: u32) -> (r: bool)
        ensures
            r == (self.low <= value && value <= self.high),
    {
        self.low <= value && value <= self.high
    }

    /// Lower end.
    fn low(&self) -> (r: u32)
        ensures
            r == self.low,
    {
        self.low
    }

    /// Upper end.
    fn high(&self) -> (r: u32)
        ensures
            r == self.high,
    {
        self.high
    }
}

/// Whether `v` lies in one of the intervals of `s`.
spec fn in_pool(s: Seq<ValueInterval>, v: int) -> bool {
    exists|i: int| 0 <= i < s.len() && #[trigger] s[i].low <= v && v <= s[i].high
}

/// The intervals lie within `[lo, hi]`, in increasing order, with at least one used
/// value between neighbours.
spec fn pool_wf(s: Seq<ValueInterval>, lo: int, hi: int) -> bool {
    &&& forall|i: int| 0 <= i < s.len() ==> lo <= #[trigger] s[i].low <= s[i].high <= hi
    &&& forall|i: int, j: int| 0 <= i < j < s.len() ==> #[trigger] s[i].high + 1 < #[trigger] s[j].low
}

/// The set of values covered by the intervals of `s`.
spec fn pool_set(s: Seq<ValueInterval>) -> Set<int> {
    Set::new(|v: int| in_pool(s, v))
}

/// `v` is vacant in none of the intervals and falls between `s[i - 1]` and `s[i]`.
spec fn gap_at(s: Seq<ValueInterval>, i: int, v: int) -> bool {
    &&& 0 <= i <= s.len()
    &&& forall|j: int| 0 <= j < i ==> #[trigger] s[j].high < v
    &&& i < s.len() ==> v < s[i].low
}

proof fn lemma_release_join(s: Seq<ValueInterval>, lo: int, hi: int, i: int, v: u32)
    requires
        pool_wf(s, lo, hi),
        lo <= v <= hi,
        gap_at(s, i, v as int),
        0 < i < s.len(),
        s[i - 1].high + 1 == v,
        v + 1 == s[i].low,
    ensures
        ({
            let t = s.update(i - 1, ValueInterval { low: s[i - 1].low, high: s[i].high }).remove(i);
            pool_wf(t, lo, hi) && pool_set(t) == pool_set(s).insert(v as int)
        }),
{
    let t = s.update(i - 1, ValueInterval { low: s[i - 1].low, high: s[i].high }).remove(i);
    assert forall|j: int, k: int| 0 <= j < k < t.len() implies #[trigger] t[j].high + 1
        < #[trigger] t[k].low by {
        if k >= i {
            if j == i - 1 {
                assert(s[i].high + 1 < s[k + 1].low);
            } else if j < i - 1 {
                assert(s[j].high + 1 < s[k + 1].low);
            } else {
                assert(s[j + 1].high + 1 < s[k + 1].low);
            }
        } else {
            assert(s[j].high + 1 < s[k].low);
        }
    }
    assert forall|j: int| 0 <= j < t.len() implies lo <= #[trigger] t[j].low <= t[j].high <= hi by {
        if j == i - 1 {
            assert(s[i].low <= s[i].high);
        } else if j >= i {
            assert(lo <= s[j + 1].low);
        }
    }
    assert forall|w: int| #[trigger] pool_set(t).contains(w) <==> pool_set(s).insert(v as int).contains(w) by {
        if in_pool(t, w) {
            let j = choose|j: int| 0 <= j < t.len() && #[trigger] t[j].low <= w && w <= t[j].high;
            if j == i - 1 {
                if w < v {
                    assert(s[j].low <= w && w <= s[j].high);
                } else if w > v {
                    assert(s[i].low <= w && w <= s[i].high);
                }
            } else if j < i - 1 {
                assert(s[j].low <= w && w <= s[j].high);
            } else {
                assert(s[j + 1].low <= w && w <= s[j + 1].high);
            }
        }
        if pool_set(s).insert(v as int).contains(w) {
            if w == v {
                assert(t[i - 1].low <= w && w <= t[i - 1].high);
            } else {
                let j = choose|j: int| 0 <= j < s.len() && #[trigger] s[j].low <= w && w <= s[j].high;
                if j < i - 1 {
                    assert(t[j].low <= w && w <= t[j].high);
                } else if j == i - 1 || j == i {
                    assert(t[i - 1].low <= w && w <= t[i - 1].high);
                } else {
                    assert(t[j - 1].low <= w && w <= t[j - 1].high);
                }
            }
        }
    }
    assert(pool_set(t) =~= pool_set(s).insert(v as int));
}

proof fn lemma_release_extend_left(s: Seq<ValueInterval>, lo: int, hi: int, i: int, v: u32)
    requires
        pool_wf(s, lo, hi),
        lo <= v <= hi,
        gap_at(s, i, v as int),
        0 < i <= s.len(),
        s[i - 1].high + 1 == v,
        !(i < s.len() && v + 1 == s[i].low),
    ensures
        ({
            let t = s.update(i - 1, ValueInterval { low: s[i - 1].low, high: v });
            pool_wf(t, lo, hi) && pool_set(t) == pool_set(s).insert(v as int)
        }),
{
    let t = s.update(i - 1, ValueInterval { low: s[i - 1].low, high: v });
    assert forall|j: int, k: int| 0 <= j < k < t.len() implies #[trigger] t[j].high + 1
        < #[trigger] t[k].low by {
        if j == i - 1 {
            if k > i {
                assert(s[i].high + 1 < s[k].low);
            }
        } else if k == i - 1 {
            assert(s[j].high + 1 < s[k].low);
        } else {
            assert(s[j].high + 1 < s[k].low);
        }
    }
    assert forall|j: int| 0 <= j < t.len() implies lo <= #[trigger] t[j].low <= t[j].high <= hi by {
        assert(lo <= s[j].low);
    }
    assert forall|w: int| #[trigger] pool_set(t).contains(w) <==> pool_set(s).insert(v as int).contains(w) by {
        if in_pool(t, w) {
            let j = choose|j: int| 0 <= j < t.len() && #[trigger] t[j].low <= w && w <= t[j].high;
            if w != v {
                assert(s[j].low <= w && w <= s[j].high);
            }
        }
        if pool_set(s).insert(v as int).contains(w) {
            if w == v {
                assert(t[i - 1].low <= w && w <= t[i - 1].high);
            } else {
                let j = choose|j: int| 0 <= j < s.len() && #[trigger] s[j].low <= w && w <= s[j].high;
                assert(t[j].low <= w && w <= t[j].high);
            }
        }
    }
    assert(pool_set(t) =~= pool_set(s).insert(v as int));
}

proof fn lemma_release_extend_right(s: Seq<ValueInterval>, lo: int, hi: int, i: int, v: u32)
    requires
        pool_wf(s, lo, hi),
        lo <= v <= hi,
        gap_at(s, i, v as int),
        0 <= i < s.len(),
        !(i > 0 && s[i - 1].high + 1 == v),
        v + 1 == s[i].low,
    ensures
        ({
            let t = s.update(i, ValueInterval { low: v, high: s[i].high });
            pool_wf(t, lo, hi) && pool_set(t) == pool_set(s).insert(v as int)
        }),
{
    let t = s.update(i, ValueInterval { low: v, high: s[i].high });
    assert forall|j: int, k: int| 0 <= j < k < t.len() implies #[trigger] t[j].high + 1
        < #[trigger] t[k].low by {
        if k == i {
            assert(s[j].high < v);
            if j == i - 1 {
                assert(s[j].high + 1 != v);
            } else {
                assert(s[j].high + 1 < s[i - 1].low);
                assert(s[i - 1].high < v);
            }
        } else if j == i {
            assert(s[i].high + 1 < s[k].low);
        } else {
            assert(s[j].high + 1 < s[k].low);
        }
    }
    assert forall|j: int| 0 <= j < t.len() implies lo <= #[trigger] t[j].low <= t[j].high <= hi by {
        assert(lo <= s[j].low);
    }
    assert forall|w: int| #[trigger] pool_set(t).contains(w) <==> pool_set(s).insert(v as int).contains(w) by {
        if in_pool(t, w) {
            let j = choose|j: int| 0 <= j < t.len() && #[trigger] t[j].low <= w && w <= t[j].high;
            if w != v {
                assert(s[j].low <= w && w <= s[j].high);
            }
        }
        if pool_set(s).insert(v as int).contains(w) {
            if w == v {
                assert(t[i].low <= w && w <= t[i].high);
            } else {
                let j = choose|j: int| 0 <= j < s.len() && #[trigger] s[j].low <= w && w <= s[j].high;
                assert(t[j].low <= w && w <= t[j].high);
            }
        }
    }
    assert(pool_set(t) =~= pool_set(s).insert(v as int));
}

proof fn lemma_release_alone(s: Seq<ValueInterval>, lo: int, hi: int, i: int, v: u32)
    requires
        pool_wf(s, lo, hi),
        lo <= v <= hi,
        gap_at(s, i, v as int),
        !(i > 0 && s[i - 1].high + 1 == v),
        !(i < s.len() && v + 1 == s[i].low),
    ensures
        ({
            let t = s.insert(i, ValueInterval { low: v, high: v });
            pool_wf(t, lo, hi) && pool_set(t) == pool_set(s).insert(v as int)
        }),
{
    let t = s.insert(i, ValueInterval { low: v, high: v });
    assert forall|j: int, k: int| 0 <= j < k < t.len() implies #[trigger] t[j].high + 1
        < #[trigger] t[k].low by {
        if k < i {
            assert(s[j].high + 1 < s[k].low);
        } else if k == i {
            assert(s[j].high < v);
            if j == i - 1 {
                assert(s[j].high + 1 != v);
            } else {
                assert(s[j].high + 1 < s[i - 1].low);
                assert(s[i - 1].high < v);
            }
        } else if j == i {
            assert(s[i].low > v + 1);
            if k - 1 > i {
                assert(s[i].high + 1 < s[k - 1].low);
            }
        } else if j < i {
            assert(s[j].high < v);
            assert(s[i].low > v);
            if k - 1 > i {
                assert(s[i].high + 1 < s[k - 1].low);
            }
        } else {
            assert(s[j - 1].high + 1 < s[k - 1].low);
        }
    }
    assert forall|j: int| 0 <= j < t.len() implies lo <= #[trigger] t[j].low <= t[j].high <= hi by {
        if j < i {
            assert(lo <= s[j].low);
        } else if j > i {
            assert(lo <= s[j - 1].low);
        }
    }
    assert forall|w: int| #[trigger] pool_set(t).contains(w) <==> pool_set(s).insert(v as int).contains(w) by {
        if in_pool(t, w) {
            let j = choose|j: int| 0 <= j < t.len() && #[trigger] t[j].low <= w && w <= t[j].high;
            if j < i {
                assert(s[j].low <= w && w <= s[j].high);
            } else if j > i {
                assert(s[j - 1].low <= w && w <= s[j - 1].high);
            }
        }
        if pool_set(s).insert(v as int).contains(w) {
            if w == v {
                assert(t[i].low <= w && w <= t[i].high);
            } else {
                let j = choose|j: int| 0 <= j < s.len() && #[trigger] s[j].low <= w && w <= s[j].high;
                if j < i {
                    assert(t[j].low <= w && w <= t[j].high);
                } else {
                    assert(t[j + 1].low <= w && w <= t[j + 1].high);
                }
            }
        }
    }
    assert(pool_set(t) =~= pool_set(s).insert(v as int));
}

/// The intervals after taking `v` out of `s[i]`, which holds it.
spec fn take_from(s: Seq<ValueInterval>, i: int, v: u32) -> Seq<ValueInterval> {
    let iv = s[i];
    if iv.low < v && v < iv.high {
        s.update(i, ValueInterval { low: iv.low, high: (v - 1) as u32 }).insert(
            i + 1,
            ValueInterval { low: (v + 1) as u32, high: iv.high },
        )
    } else if iv.low < v {
        s.update(i, ValueInterval { low: iv.low, high: (v - 1) as u32 })
    } else if v < iv.high {
        s.update(i, ValueInterval { low: (v + 1) as u32, high: iv.high })
    } else {
        s.remove(i)
    }
}

proof fn lemma_take(s: Seq<ValueInterval>, lo: int, hi: int, i: int, v: u32)
    requires
        pool_wf(s, lo, hi),
        0 <= i < s.len(),
        s[i].low <= v <= s[i].high,
    ensures
        pool_wf(take_from(s, i, v), lo, hi),
        pool_set(take_from(s, i, v)) == pool_set(s).remove(v as int),
{
    let t = take_from(s, i, v);
    let iv = s[i];
    assert forall|w: int| #[trigger] pool_set(t).contains(w) <==> pool_set(s).remove(v as int).contains(w) by {
        if in_pool(t, w) {
            let j = choose|j: int| 0 <= j < t.len() && #[trigger] t[j].low <= w && w <= t[j].high;
            if iv.low < v && v < iv.high {
                if j < i || j == i {
                    assert(s[j].low <= w && w <= s[j].high);
                } else if j == i + 1 {
                    assert(s[i].low <= w && w <= s[i].high);
                } else {
                    assert(s[j - 1].low <= w && w <= s[j - 1].high);
                    assert(s[i].high + 1 < s[j - 1].low);
                }
            } else if iv.low < v || v < iv.high {
                assert(s[j].low <= w && w <= s[j].high);
                if j != i {
                    if j < i {
                        assert(s[j].high + 1 < s[i].low);
                    } else {
                        assert(s[i].high + 1 < s[j].low);
                    }
                }
            } else {
                if j < i {
                    assert(s[j].low <= w && w <= s[j].high);
                    assert(s[j].high + 1 < s[i].low);
                } else {
                    assert(s[j + 1].low <= w && w <= s[j + 1].high);
                    assert(s[i].high + 1 < s[j + 1].low);
                }
            }
        }
        if pool_set(s).remove(v as int).contains(w) {
            let j = choose|j: int| 0 <= j < s.len() && #[trigger] s[j].low <= w && w <= s[j].high;
            if iv.low < v && v < iv.high {
                if j < i {
                    assert(t[j].low <= w && w <= t[j].high);
                } else if j == i {
                    if w < v {
                        assert(t[i].low <= w && w <= t[i].high);
                    } else {
                        assert(t[i + 1].low <= w && w <= t[i + 1].high);
                    }
                } else {
                    assert(t[j + 1].low <= w && w <= t[j + 1].high);
                }
            } else if iv.low < v || v < iv.high {
                assert(t[j].low <= w && w <= t[j].high);
            } else {
                if j < i {
                    assert(t[j].low <= w && w <= t[j].high);
                } else {
                    assert(j != i);
                    assert(t[j - 1].low <= w && w <= t[j - 1].high);
                }
            }
        }
    }
    assert(pool_set(t) =~= pool_set(s).remove(v as int));
    assert forall|j: int| 0 <= j < t.len() implies lo <= #[trigger] t[j].low <= t[j].high <= hi by {
        if iv.low < v && v < iv.high {
            if j < i {
                assert(lo <= s[j].low);
            } else if j > i + 1 {
                assert(lo <= s[j - 1].low);
            }
        } else if iv.low < v || v < iv.high {
            assert(lo <= s[j].low);
        } else if j < i {
            assert(lo <= s[j].low);
        } else {
            assert(lo <= s[j + 1].low);
        }
    }
    assert forall|j: int, k: int| 0 <= j < k < t.len() implies #[trigger] t[j].high + 1
        < #[trigger] t[k].low by {
        if iv.low < v && v < iv.high {
            if k < i + 1 {
                assert(s[j].high + 1 < s[k].low);
            } else if k == i + 1 {
                if j < i {
                    assert(s[j].high + 1 < s[i].low);
                }
            } else if j == i + 1 {
                assert(s[i].high + 1 < s[k - 1].low);
            } else if j == i {
                assert(s[i].high + 1 < s[k - 1].low);
            } else if j < i {
                assert(s[j].high + 1 < s[k - 1].low);
            } else {
                assert(s[j - 1].high + 1 < s[k - 1].low);
            }
        } else if iv.low < v || v < iv.high {
            assert(s[j].high + 1 < s[k].low);
        } else if k < i {
            assert(s[j].high + 1 < s[k].low);
        } else if j < i {
            assert(s[j].high + 1 < s[k + 1].low);
        } else {
            assert(s[j + 1].high + 1 < s[k + 1].low);
        }
    }
}

/// Allocator of values in `[lowest, highest]`.
///
/// The vacant values are kept as a list of maximal intervals, so the number of
/// intervals is the number of runs of consecutive vacant values.
#[derive(Clone)]
pub struct ValueAllocator<T: IsPacketId> {
    pool: Vec<ValueInterval>,
    lowest: T,
    highest: T,
}

impl<T: IsPacketId> ValueAllocator<T> {
    /// The allocator's internal invariant.
    pub closed spec fn wf(&self) -> bool {
        &&& self.lowest.id_value() <= self.highest.id_value()
        &&& pool_wf(self.pool@, self.lowest.id_value() as int, self.highest.id_value() as int)
    }

    /// The smallest value the allocator manages.
    pub closed spec fn lowest_value(&self) -> int {
        self.lowest.id_value() as int
    }

    /// The largest value the allocator manages.
    pub closed spec fn highest_value(&self) -> int {
        self.highest.id_value() as int
    }

    /// The set of vacant values.
    pub closed spec fn vacant(&self) -> Set<int> {
        pool_set(self.pool@)
    }

    /// The maximal runs of vacant values, in increasing order, as `(low, high)` pairs.
    pub closed spec fn runs(&self) -> Seq<(int, int)> {
        self.pool@.map_values(|iv: ValueInterval| (iv.low as int, iv.high as int))
    }

    /// The set of all values in `[lo, hi]`.
    pub open spec fn range_set(lo: int, hi: int) -> Set<int> {
        Set::new(|v: int| lo <= v <= hi)
    }

    /// Every vacant value lies in the managed range.
    pub proof fn lemma_vacant_in_range(&self, v: int)
        requires
            self.wf(),
            self.vacant().contains(v),
        ensures
            self.lowest_value() <= v <= self.highest_value(),
    {
        let i = choose|i: int| 0 <= i < self.pool@.len() && #[trigger] self.pool@[i].low <= v
            && v <= self.pool@[i].high;
        assert(self.pool@[i].low <= v);
    }

    /// The runs are the maximal runs of vacant values, in increasing order: each is
    /// vacant throughout, the values just outside it are in use, and together they
    /// cover the vacant values. So `interval_count` does not depend on the order
    /// of earlier calls, only on the set of vacant values.
    pub proof fn lemma_runs_maximal(&self)
        requires
            self.wf(),
        ensures
            forall|i: int| #![trigger self.runs()[i]] 0 <= i < self.runs().len() ==> {
                &&& self.runs()[i].0 <= self.runs()[i].1
                &&& forall|v: int| self.runs()[i].0 <= v <= self.runs()[i].1 ==> #[trigger] self.vacant().contains(v)
                &&& !self.vacant().contains(self.runs()[i].0 - 1)
                &&& !self.vacant().contains(self.runs()[i].1 + 1)
            },
            forall|i: int, j: int|
                0 <= i < j < self.runs().len() ==> #[trigger] self.runs()[i].1 + 1 < #[trigger] self.runs()[j].0,
            forall|v: int| #[trigger] self.vacant().contains(v) <==> exists|i: int|
                0 <= i < self.runs().len() && #[trigger] self.runs()[i].0 <= v && v <= self.runs()[i].1,
    {
        let p = self.pool@;
        let r = self.runs();
        assert(r.len() == p.len());
        assert forall|i: int| 0 <= i < r.len() implies #[trigger] r[i] == (p[i].low as int, p[i].high as int) by {}
        assert forall|i: int| #![trigger r[i]] 0 <= i < r.len() implies {
            &&& r[i].0 <= r[i].1
            &&& forall|v: int| r[i].0 <= v <= r[i].1 ==> #[trigger] self.vacant().contains(v)
            &&& !self.vacant().contains(r[i].0 - 1)
            &&& !self.vacant().contains(r[i].1 + 1)
        } by {
            assert(r[i] == (p[i].low as int, p[i].high as int));
            assert forall|v: int| r[i].0 <= v <= r[i].1 implies #[trigger] self.vacant().contains(v) by {
                assert(p[i].low <= v && v <= p[i].high);
            }
            let lo = p[i].low as int;
            let hi = p[i].high as int;
            if self.vacant().contains(lo - 1) {
                let j = choose|j: int| 0 <= j < p.len() && #[trigger] p[j].low <= lo - 1 && lo - 1 <= p[j].high;
                if j < i {
                    assert(p[j].high + 1 < p[i].low);
                } else if j > i {
                    assert(p[i].high + 1 < p[j].low);
                }
            }
            if self.vacant().contains(hi + 1) {
                let j = choose|j: int| 0 <= j < p.len() && #[trigger] p[j].low <= hi + 1 && hi + 1 <= p[j].high;
                if j < i {
                    assert(p[j].high + 1 < p[i].low);
                } else if j > i {
                    assert(p[i].high + 1 < p[j].low);
                }
            }
        }
        assert forall|i: int, j: int|
            0 <= i < j < r.len() implies #[trigger] r[i].1 + 1 < #[trigger] r[j].0 by {
            assert(p[i].high + 1 < p[j].low);
        }
        assert forall|v: int| #[trigger] self.vacant().contains(v) <==> exists|i: int|
            0 <= i < r.len() && #[trigger] r[i].0 <= v && v <= r[i].1 by {
            if self.vacant().contains(v) {
                let i = choose|i: int| 0 <= i < p.len() && #[trigger] p[i].low <= v && v <= p[i].high;
                assert(r[i].0 <= v && v <= r[i].1);
            }
            if exists|i: int| 0 <= i < r.len() && #[trigger] r[i].0 <= v && v <= r[i].1 {
                let i = choose|i: int| 0 <= i < r.len() && #[trigger] r[i].0 <= v && v <= r[i].1;
                assert(p[i].low <= v && v <= p[i].high);
            }
        }
    }

    /// Creates an allocator whose values `[lowest, highest]` are all vacant.
    pub fn new(lowest: T, highest: T) -> (r: Self)
        requires
            lowest.id_value() <= highest.id_value(),
        ensures
            r.wf(),
            r.lowest_value() == lowest.id_value(),
            r.highest_value() == highest.id_value(),
            r.vacant() == Self::range_set(lowest.id_value() as int, highest.id_value() as int),
            r.runs().len() == 1,
    {
        let mut pool = Vec::new();
        pool.push(ValueInterval::new_range(lowest.to_u32(), highest.to_u32()));
        let r = Self { pool, lowest, highest };
        proof {
            assert forall|v: int| #[trigger] r.vacant().contains(v) <==> lowest.id_value() <= v
                <= highest.id_value() by {
                if lowest.id_value() <= v <= highest.id_value() {
                    assert(r.pool@[0].low <= v && v <= r.pool@[0].high);
                }
            }
            assert(r.vacant() =~= Self::range_set(
                lowest.id_value() as int,
                highest.id_value() as int,
            ));
        }
        r
    }

    /// Takes the smallest vacant value; `None` when every value is in use.
    pub fn allocate(&mut self) -> (r: Option<T>)
        requires
            old(self).wf(),
        ensures
            final(self).wf(),
            final(self).lowest_value() == old(self).lowest_value(),
            final(self).highest_value() == old(self).highest_value(),
            match r {
                None => old(self).vacant().is_empty() && final(self).vacant() == old(self).vacant(),
                Some(v) => {
                    &&& old(self).vacant().contains(v.id_value() as int)
                    &&& forall|w: int| #[trigger] old(self).vacant().contains(w) ==> v.id_value() <= w
                    &&& final(self).vacant() == old(self).vacant().remove(v.id_value() as int)
                },
            },
    {
        if self.pool.len() == 0 {
            proof {
                assert(old(self).vacant() =~= Set::<int>::empty());
            }
            return None;
        }
        let iv = self.pool[0];
        let value = iv.low();
        let ghost before = self.pool@;
        if value < iv.high() {
            self.pool.set(0, ValueInterval::new_range(value + 1, iv.high()));
        } else {
            self.pool.remove(0);
        }
        proof {
            T::lemma_id_facts(self.highest, self.highest);
            assert forall|w: int| #[trigger] old(self).vacant().contains(w) implies value <= w by {
                let i = choose|i: int| 0 <= i < before.len() && #[trigger] before[i].low <= w && w
                    <= before[i].high;
                if i > 0 {
                    assert(before[0].high + 1 < before[i].low);
                }
            }
            assert forall|w: int| #[trigger] self.vacant().contains(w) <==> old(
                self,
            ).vacant().remove(value as int).contains(w) by {
                if self.vacant().contains(w) {
                    let i = choose|i: int| 0 <= i < self.pool@.len() && #[trigger] self.pool@[i].low
                        <= w && w <= self.pool@[i].high;
                    if value < iv.high {
                        assert(before[i].low <= w && w <= before[i].high);
                    } else {
                        assert(before[i + 1].low <= w && w <= before[i + 1].high);
                    }
                }
                if old(self).vacant().remove(value as int).contains(w) {
                    let i = choose|i: int| 0 <= i < before.len() && #[trigger] before[i].low <= w && w
                        <= before[i].high;
                    if i == 0 {
                        assert(self.pool@[0].low <= w && w <= self.pool@[0].high);
                    } else if value < iv.high {
                        assert(self.pool@[i].low <= w && w <= self.pool@[i].high);
                    } else {
                        assert(self.pool@[i - 1].low <= w && w <= self.pool@[i - 1].high);
                    }
                }
            }
            assert(self.vacant() =~= old(self).vacant().remove(value as int));
            assert(before[0].low <= value && value <= before[0].high);
            assert(value < pow256(T::id_width())) by {
                assert(value <= self.highest.id_value());
            }
        }
        Some(T::from_u32(value))
    }

    /// The smallest vacant value, without taking it.
    pub fn first_vacant(&self) -> (r: Option<T>)
        requires
            self.wf(),
        ensures
            match r {
                None => self.vacant().is_empty(),
                Some(v) => {
                    &&& self.vacant().contains(v.id_value() as int)
                    &&& forall|w: int| #[trigger] self.vacant().contains(w) ==> v.id_value() <= w
                },
            },
    {
        if self.pool.len() == 0 {
            proof {
                assert(self.vacant() =~= Set::<int>::empty());
            }
            return None;
        }
        let value = self.pool[0].low();
        proof {
            T::lemma_id_facts(self.highest, self.highest);
            assert forall|w: int| #[trigger] self.vacant().contains(w) implies value <= w by {
                let i = choose|i: int| 0 <= i < self.pool@.len() && #[trigger] self.pool@[i].low <= w
                    && w <= self.pool@[i].high;
                if i > 0 {
                    assert(self.pool@[0].high + 1 < self.pool@[i].low);
                }
            }
            assert(self.pool@[0].low <= value && value <= self.pool@[0].high);
            assert(value <= self.highest.id_value());
        }
        Some(T::from_u32(value))
    }


    /// Returns `value` to the vacant values.
    ///
    /// Releasing a value that is already vacant leaves the allocator unchanged.
    pub fn deallocate(&mut self, value: T)
        requires
            old(self).wf(),
            old(self).lowest_value() <= value.id_value() <= old(self).highest_value(),
        ensures
            final(self).wf(),
            final(self).lowest_value() == old(self).lowest_value(),
            final(self).highest_value() == old(self).highest_value(),
            final(self).vacant() == old(self).vacant().insert(value.id_value() as int),
    {
        let v = value.to_u32();
        let ghost before = self.pool@;
        let ghost lo = self.lowest.id_value() as int;
        let ghost hi = self.highest.id_value() as int;
        let mut i: usize = 0;
        while i < self.pool.len() && self.pool[i].high() < v
            invariant
                0 <= i <= self.pool@.len(),
                self.pool@ == before,
                forall|j: int| 0 <= j < i ==> #[trigger] before[j].high < v,
            decreases self.pool@.len() - i,
        {
            i = i + 1;
        }
        let len = self.pool.len();
        if i < len && self.pool[i].low() <= v {
            proof {
                assert(before[i as int].low <= v && v <= before[i as int].high);
                assert(self.vacant() =~= old(self).vacant().insert(v as int));
            }
            return;
        }
        let left_adjacent = i > 0 && self.pool[i - 1].high() + 1 == v;
        let right_adjacent = i < len && v < u32::MAX && v + 1 == self.pool[i].low();
        if left_adjacent && right_adjacent {
            proof {
                lemma_release_join(before, lo, hi, i as int, v);
            }
            let l = self.pool[i - 1];
            let r = self.pool[i];
            self.pool.set(i - 1, ValueInterval::new_range(l.low(), r.high()));
            self.pool.remove(i);
        } else if left_adjacent {
            proof {
                lemma_release_extend_left(before, lo, hi, i as int, v);
            }
            let l = self.pool[i - 1];
            self.pool.set(i - 1, ValueInterval::new_range(l.low(), v));
        } else if right_adjacent {
            proof {
                lemma_release_extend_right(before, lo, hi, i as int, v);
            }
            let r = self.pool[i];
            self.pool.set(i, ValueInterval::new_range(v, r.high()));
        } else {
            proof {
                lemma_release_alone(before, lo, hi, i as int, v);
            }
            self.pool.insert(i, ValueInterval::new_single(v));
        }
    }

    /// Marks `value` as used. Returns `true` when it was vacant, `false` when it was
    /// already in use or lies outside the managed range (then nothing changes).
    pub fn use_value(&mut self, value: T) -> (r: bool)
        requires
            old(self).wf(),
        ensures
            final(self).wf(),
            final(self).lowest_value() == old(self).lowest_value(),
            final(self).highest_value() == old(self).highest_value(),
            r == old(self).vacant().contains(value.id_value() as int),
            final(self).vacant() == old(self).vacant().remove(value.id_value() as int),
    {
        let v = value.to_u32();
        let ghost before = self.pool@;
        let mut i: usize = 0;
        while i < self.pool.len() && !self.pool[i].contains(v)
            invariant
                0 <= i <= self.pool@.len(),
                self.pool@ == before,
                forall|j: int| 0 <= j < i ==> !(#[trigger] before[j].low <= v && v <= before[j].high),
            decreases self.pool@.len() - i,
        {
            i = i + 1;
        }
        if i == self.pool.len() {
            proof {
                assert(!in_pool(before, v as int));
                assert(self.vacant() =~= old(self).vacant().remove(v as int));
            }
            return false;
        }
        let iv = self.pool[i];
        proof {
            lemma_take(before, self.lowest.id_value() as int, self.highest.id_value() as int, i as int, v);
        }
        if iv.low() < v && v < iv.high() {
            self.pool.set(i, ValueInterval::new_range(iv.low(), v - 1));
            self.pool.insert(i + 1, ValueInterval::new_range(v + 1, iv.high()));
        } else if iv.low() < v {
            self.pool.set(i, ValueInterval::new_range(iv.low(), v - 1));
        } else if v < iv.high() {
            self.pool.set(i, ValueInterval::new_range(v + 1, iv.high()));
        } else {
            self.pool.remove(i);
        }
        proof {
            assert(self.pool@ =~= take_from(before, i as int, v));
            assert(before[i as int].low <= v && v <= before[i as int].high);
        }
        true
    }

    /// Whether `value` is in use (values outside the managed range count as used).
    pub fn is_used(&self, value: T) -> (r: bool)
        requires
            self.wf(),
        ensures
            r == !self.vacant().contains(value.id_value() as int),
    {
        let v = value.to_u32();
        let mut i: usize = 0;
        while i < self.pool.len()
            invariant
                0 <= i <= self.pool@.len(),
                v == value.id_value(),
                forall|j: int| 0 <= j < i ==> !(#[trigger] self.pool@[j].low <= v && v <= self.pool@[j].high),
            decreases self.pool@.len() - i,
        {
            if self.pool[i].contains(v) {
                proof {
                    assert(self.pool@[i as int].low <= v && v <= self.pool@[i as int].high);
                    assert(in_pool(self.pool@, v as int));
                    assert(self.vacant().contains(v as int));
                }
                return false;
            }
            i = i + 1;
        }
        true
    }

    /// Makes every value of the managed range vacant again.
    pub fn clear(&mut self)
        requires
            old(self).wf(),
        ensures
            final(self).wf(),
            final(self).lowest_value() == old(self).lowest_value(),
            final(self).highest_value() == old(self).highest_value(),
            final(self).vacant() == Self::range_set(old(self).lowest_value(), old(self).highest_value()),
            final(self).runs().len() == 1,
    {
        self.pool.clear();
        self.pool.push(ValueInterval::new_range(self.lowest.to_u32(), self.highest.to_u32()));
        proof {
            let lo = self.lowest.id_value() as int;
            let hi = self.highest.id_value() as int;
            assert forall|v: int| #[trigger] self.vacant().contains(v) <==> lo <= v <= hi by {
                if lo <= v <= hi {
                    assert(self.pool@[0].low <= v && v <= self.pool@[0].high);
                }
            }
            assert(self.vacant() =~= Self::range_set(lo, hi));
        }
    }

    /// The number of maximal runs of vacant values.
    pub fn interval_count(&self) -> (r: usize)
        ensures
            r == self.runs().len(),
    {
        self.pool.len()
    }
}

} // verus!
