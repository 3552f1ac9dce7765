//! A holding: the set of card ranks a player holds in one suit, stored as a
//! bit pattern over the rank domain 2..=14 (2..10 the numeral ranks, 11..14
//! Jack through Ace), with a two-cursor iterator that walks the held ranks in
//! ascending order from the front and descending order from the back.
use vstd::prelude::*;

verus! {

/// A set of card ranks in the closed range [2, 14]; bit `r` of the wrapped
/// word records whether rank `r` is held. Bits outside that range carry no
/// meaning and are ignored by every operation.
#[derive(Clone, Copy, Debug, PartialEq, Eq, Hash, Structural)]
pub struct Holding(pub u32);

impl Holding {
    /// Whether rank `r` is held: `r` lies in the rank domain and its bit is
    /// set.
    pub open spec fn has(self, r: int) -> bool {
        2 <= r <= 14 && ((self.0 >> (r as u32)) & 1u32) == 1u32
    }

    /// The held ranks within `[lo, hi]`, in ascending order.
    pub open spec fn ranks_between(self, lo: int, hi: int) -> Seq<u32>
        decreases hi + 1 - lo,
    {
        if lo > hi {
            Seq::empty()
        } else if self.has(lo) {
            seq![lo as u32] + self.ranks_between(lo + 1, hi)
        } else {
            self.ranks_between(lo + 1, hi)
        }
    }

    /// All held ranks, in ascending order.
    pub open spec fn ranks(self) -> Seq<u32> {
        self.ranks_between(2, 14)
    }

    /// The empty holding.
    pub fn new() -> (r: Holding)
        ensures
            r.0 == 0,
            forall|k: int| !r.has(k),
    {
        proof {
            assert(forall|k: u32| k <= 14 ==> ((0u32 >> k) & 1u32) == 0u32) by (bit_vector);
        }
        Holding(0)
    }

    /// Adds `rank` to the holding; a no-op if the rank is already held.
    pub fn add(&mut self, rank: u32)
        requires
            2 <= rank <= 14,
        ensures
            final (self).0 == old(self).0 | (1u32 << rank),
            forall|k: int| final (self).has(k) <==> (old(self).has(k) || k == rank),
    {
        let ghost ob = self.0;
        self.0 = self.0 | (1u32 << rank);
        proof {
            let nb = self.0;
            assert forall|k: int| final (self).has(k) <==> (old(self).has(k) || k == rank) by {
                if 2 <= k <= 14 {
                    let ku = k as u32;
                    assert((((nb >> ku) & 1u32) == 1u32) <==> ((((ob >> ku) & 1u32) == 1u32) || ku
                        == rank)) by (bit_vector)
                        requires
                            nb == ob | (1u32 << rank),
                            rank <= 14,
                            ku <= 14,
                    ;
                }
            }
        }
    }

    /// Removes `rank` from the holding; a no-op if the rank is not held.
    pub fn remove(&mut self, rank: u32)
        requires
            2 <= rank <= 14,
        ensures
            final (self).0 == old(self).0 & !(1u32 << rank),
            forall|k: int| final (self).has(k) <==> (old(self).has(k) && k != rank),
    {
        let ghost ob = self.0;
        self.0 = self.0 & !(1u32 << rank);
        proof {
            let nb = self.0;
            assert forall|k: int| final (self).has(k) <==> (old(self).has(k) && k != rank) by {
                if 2 <= k <= 14 {
                    let ku = k as u32;
                    assert((((nb >> ku) & 1u32) == 1u32) <==> ((((ob >> ku) & 1u32) == 1u32) && ku
                        != rank)) by (bit_vector)
                        requires
                            nb == ob & !(1u32 << rank),
                            rank <= 14,
                            ku <= 14,
                    ;
                }
            }
        }
    }

    /// Whether `rank` is held.
    pub fn contains(&self, rank: u32) -> (r: bool)
        requires
            2 <= rank <= 14,
        ensures
            r == self.has(rank as int),
    {
        let b = self.0;
        proof {
            assert(((b & (1u32 << rank)) != 0u32) <==> (((b >> rank) & 1u32) == 1u32))
                by (bit_vector)
                requires
                    rank <= 14,
            ;
        }
        (b & (1u32 << rank)) != 0
    }

    /// A fresh two-cursor iterator over the held ranks.
    pub fn iter(self) -> (r: HoldingIterator)
        ensures
            r.wf(),
            r.remaining() == self.ranks(),
    {
        let mut front: u32 = 2;
        while front < 15 && !self.contains(front)
            invariant
                2 <= front <= 15,
                forall|r: int| 2 <= r < front ==> !self.has(r),
            decreases 15 - front,
        {
            front = front + 1;
        }
        let mut back: u32 = 14;
        while back > 1 && !self.contains(back)
            invariant
                1 <= back <= 14,
                forall|r: int| back < r <= 14 ==> !self.has(r),
            decreases back,
        {
            back = back - 1;
        }
        proof {
            lemma_skip_below(self, 2, front as int, 14);
            lemma_skip_above(self, front as int, back as int, 14);
        }
        HoldingIterator { holding: self, front, back }
    }

    /// The number of held ranks.
    pub fn count(self) -> (r: u32)
        ensures
            r as nat == self.ranks().len(),
    {
        let mut c: u32 = 0;
        let mut k: u32 = 2;
        while k <= 14
            invariant
                2 <= k <= 15,
                c as nat == self.ranks_between(2, k as int - 1).len(),
                c <= 13,
            decreases 15 - k,
        {
            proof {
                lemma_ranks_between_props(self, 2, k as int);
                if self.has(k as int) {
                    lemma_take_last(self, 2, k as int);
                } else {
                    lemma_drop_hi(self, 2, k as int);
                }
            }
            if self.contains(k) {
                c = c + 1;
            }
            k = k + 1;
        }
        c
    }

    /// Folds a sequence of ranks into a holding; duplicates and order in the
    /// input are irrelevant, the result holds exactly the ranks that occur.
    pub fn from_ranks(ranks: &Vec<u32>) -> (r: Holding)
        requires
            forall|i: int| 0 <= i < ranks@.len() ==> 2 <= #[trigger] ranks@[i] <= 14,
        ensures
            forall|k: int| r.has(k) <==> ranks@.contains(k as u32) && 2 <= k <= 14,
    {
        let mut holding = Holding::new();
        let mut i: usize = 0;
        while i < ranks.len()
            invariant
                0 <= i <= ranks@.len(),
                forall|j: int| 0 <= j < ranks@.len() ==> 2 <= #[trigger] ranks@[j] <= 14,
                forall|k: int|
                    holding.has(k) <==> ranks@.subrange(0, i as int).contains(k as u32) && 2 <= k
                        <= 14,
            decreases ranks@.len() - i,
        {
            let ghost prev = ranks@.subrange(0, i as int);
            holding.add(ranks[i]);
            proof {
                assert(ranks@.subrange(0, i + 1) =~= prev.push(ranks@[i as int]));
                assert forall|k: int|
                    holding.has(k) <==> ranks@.subrange(0, i + 1).contains(k as u32) && 2 <= k
                        <= 14 by {
                    let cur = ranks@.subrange(0, i + 1);
                    if cur.contains(k as u32) && 2 <= k <= 14 {
                        let w = choose|w: int| 0 <= w < cur.len() && cur[w] == k as u32;
                        if w < prev.len() {
                            assert(prev[w] == k as u32);
                        }
                    }
                    if prev.contains(k as u32) {
                        let w = choose|w: int| 0 <= w < prev.len() && prev[w] == k as u32;
                        assert(cur[w] == k as u32);
                    }
                    if k == ranks@[i as int] {
                        assert(cur[i as int] == k as u32);
                    }
                }
            }
            i = i + 1;
        }
        proof {
            assert(ranks@.subrange(0, ranks@.len() as int) =~= ranks@);
        }
        holding
    }
}

/// The two-cursor iterator over a holding: the front cursor rests on the
/// least unvisited held rank, the back cursor on the greatest, and the
/// cursors have crossed exactly when every held rank has been visited.
#[derive(Copy, Clone, Debug)]
pub struct HoldingIterator {
    holding: Holding,
    front: u32,
    back: u32,
}

impl HoldingIterator {
    /// The cursors stay within one step of the rank domain, and each rests on
    /// a held rank unless they have crossed.
    pub closed spec fn wf(self) -> bool {
        &&& 2 <= self.front <= 15
        &&& 1 <= self.back <= 14
        &&& (self.front > self.back || (self.holding.has(self.front as int) && self.holding.has(
            self.back as int,
        )))
    }

    /// The ranks not yet visited, in ascending order.
    pub closed spec fn remaining(self) -> Seq<u32> {
        self.holding.ranks_between(self.front as int, self.back as int)
    }

    /// Visits and returns the least unvisited held rank, or `None` when all
    /// held ranks have been visited.
    pub fn next(&mut self) -> (r: Option<u32>)
        requires
            old(self).wf(),
        ensures
            final (self).wf(),
            match r {
                None => old(self).remaining().len() == 0 && *final (self) == *old(self),
                Some(v) => old(self).remaining().len() > 0 && v == old(self).remaining()[0]
                    && final (self).remaining() == old(self).remaining().drop_first(),
            },
    {
        if self.front > self.back {
            None
        } else {
            let ret = self.front;
            proof {
                lemma_take_first(self.holding, self.front as int, self.back as int);
            }
            self.front = self.front + 1;
            while self.front < 15 && !self.holding.contains(self.front)
                invariant
                    2 <= self.front <= 15,
                    self.holding == old(self).holding,
                    self.back == old(self).back,
                    self.holding.ranks_between(self.front as int, self.back as int) == old(
                        self,
                    ).remaining().drop_first(),
                decreases 15 - self.front,
            {
                proof {
                    lemma_skip_lo(self.holding, self.front as int, self.back as int);
                }
                self.front = self.front + 1;
            }
            Some(ret)
        }
    }

    /// Visits and returns the greatest unvisited held rank, or `None` when
    /// all held ranks have been visited.
    pub fn next_back(&mut self) -> (r: Option<u32>)
        requires
            old(self).wf(),
        ensures
            final (self).wf(),
            match r {
                None => old(self).remaining().len() == 0 && *final (self) == *old(self),
                Some(v) => old(self).remaining().len() > 0 && v == old(self).remaining().last()
                    && final (self).remaining() == old(self).remaining().drop_last(),
            },
    {
        if self.front > self.back {
            None
        } else {
            let ret = self.back;
            proof {
                lemma_take_last(self.holding, self.front as int, self.back as int);
            }
            self.back = self.back - 1;
            while self.back > 1 && !self.holding.contains(self.back)
                invariant
                    1 <= self.back <= 14,
                    2 <= self.front,
                    self.holding == old(self).holding,
                    self.front == old(self).front,
                    self.holding.ranks_between(self.front as int, self.back as int) == old(
                        self,
                    ).remaining().drop_last(),
                decreases self.back,
            {
                proof {
                    lemma_drop_hi(self.holding, self.front as int, self.back as int);
                }
                self.back = self.back - 1;
            }
            Some(ret)
        }
    }
}

/// Skipping a rank that is not held from the low end leaves the window's
/// contents unchanged.
proof fn lemma_skip_lo(h: Holding, lo: int, hi: int)
    requires
        !h.has(lo),
    ensures
        h.ranks_between(lo, hi) == h.ranks_between(lo + 1, hi),
{
}

/// Dropping a rank that is not held from the high end leaves the window's
/// contents unchanged.
proof fn lemma_drop_hi(h: Holding, lo: int, hi: int)
    requires
        !h.has(hi),
    ensures
        h.ranks_between(lo, hi) == h.ranks_between(lo, hi - 1),
    decreases hi - lo,
{
    if lo > hi {
        assert(h.ranks_between(lo, hi - 1) =~= Seq::<u32>::empty());
    } else if lo == hi {
        assert(h.ranks_between(lo + 1, hi) =~= Seq::<u32>::empty());
        assert(h.ranks_between(lo, hi - 1) =~= Seq::<u32>::empty());
    } else {
        lemma_drop_hi(h, lo + 1, hi);
    }
}

/// Widening the window downward over ranks that are not held leaves its
/// contents unchanged.
proof fn lemma_skip_below(h: Holding, lo: int, lo2: int, hi: int)
    requires
        lo <= lo2,
        forall|r: int| lo <= r < lo2 ==> !h.has(r),
    ensures
        h.ranks_between(lo, hi) == h.ranks_between(lo2, hi),
    decreases lo2 - lo,
{
    if lo < lo2 {
        lemma_skip_lo(h, lo, hi);
        lemma_skip_below(h, lo + 1, lo2, hi);
    }
}

/// Widening the window upward over ranks that are not held leaves its
/// contents unchanged.
proof fn lemma_skip_above(h: Holding, lo: int, hi2: int, hi: int)
    requires
        hi2 <= hi,
        forall|r: int| hi2 < r <= hi ==> !h.has(r),
    ensures
        h.ranks_between(lo, hi) == h.ranks_between(lo, hi2),
    decreases hi - hi2,
{
    if hi2 < hi {
        lemma_drop_hi(h, lo, hi);
        lemma_skip_above(h, lo, hi2, hi - 1);
    }
}

/// A window whose low end rests on a held rank starts with that rank, and
/// advancing past it drops exactly the first element.
proof fn lemma_take_first(h: Holding, lo: int, hi: int)
    requires
        lo <= hi,
        h.has(lo),
    ensures
        h.ranks_between(lo, hi).len() >= 1,
        h.ranks_between(lo, hi)[0] == lo as u32,
        h.ranks_between(lo, hi).drop_first() == h.ranks_between(lo + 1, hi),
{
    assert(h.ranks_between(lo, hi).drop_first() =~= h.ranks_between(lo + 1, hi));
}

/// A window whose high end rests on a held rank ends with that rank, and
/// retreating past it drops exactly the last element.
proof fn lemma_take_last(h: Holding, lo: int, hi: int)
    requires
        lo <= hi,
        h.has(hi),
    ensures
        h.ranks_between(lo, hi).len() >= 1,
        h.ranks_between(lo, hi).last() == hi as u32,
        h.ranks_between(lo, hi).drop_last() == h.ranks_between(lo, hi - 1),
    decreases hi - lo,
{
    if lo == hi {
        assert(h.ranks_between(lo, hi) =~= seq![lo as u32]);
        assert(h.ranks_between(lo, hi).drop_last() =~= h.ranks_between(lo, hi - 1));
    } else {
        lemma_take_last(h, lo + 1, hi);
        let s = h.ranks_between(lo + 1, hi);
        if h.has(lo) {
            assert(h.ranks_between(lo, hi) == seq![lo as u32] + s);
            assert((seq![lo as u32] + s).last() == s.last());
            assert((seq![lo as u32] + s).drop_last() =~= seq![lo as u32] + s.drop_last());
        }
    }
}

/// The contents of a window are no longer than the window itself; every
/// element is a held rank inside the window; the elements are strictly
/// ascending; and every held rank inside the window occurs.
proof fn lemma_ranks_between_props(h: Holding, lo: int, hi: int)
    ensures
        lo > hi ==> h.ranks_between(lo, hi).len() == 0,
        lo <= hi ==> h.ranks_between(lo, hi).len() <= hi + 1 - lo,
        forall|i: int|
            0 <= i < h.ranks_between(lo, hi).len() ==> lo <= #[trigger] h.ranks_between(lo, hi)[i]
                <= hi && h.has(h.ranks_between(lo, hi)[i] as int),
        forall|i: int, j: int|
            0 <= i < j < h.ranks_between(lo, hi).len() ==> h.ranks_between(lo, hi)[i]
                < h.ranks_between(lo, hi)[j],
        forall|r: int| lo <= r <= hi && h.has(r) ==> h.ranks_between(lo, hi).contains(r as u32),
    decreases hi + 1 - lo,
{
    if lo <= hi {
        lemma_ranks_between_props(h, lo + 1, hi);
        let s = h.ranks_between(lo + 1, hi);
        assert forall|r: int| lo <= r <= hi && h.has(r) implies h.ranks_between(
            lo,
            hi,
        ).contains(r as u32) by {
            if r == lo {
                assert(h.ranks_between(lo, hi)[0] == r as u32);
            } else {
                let w = choose|w: int| 0 <= w < s.len() && s[w] == r as u32;
                if h.has(lo) {
                    assert(h.ranks_between(lo, hi)[w + 1] == r as u32);
                } else {
                    assert(h.ranks_between(lo, hi)[w] == r as u32);
                }
            }
        }
    }
}

/// The ascending rank sequence of a holding is strictly sorted, mentions only
/// held ranks, and mentions every held rank: it is exactly the deduplicated,
/// sorted reading of the held set.
pub proof fn lemma_ranks_sorted_complete(h: Holding)
    ensures
        forall|i: int, j: int|
            0 <= i < j < h.ranks().len() ==> #[trigger] h.ranks()[i] < #[trigger] h.ranks()[j],
        forall|i: int| 0 <= i < h.ranks().len() ==> h.has(#[trigger] h.ranks()[i] as int),
        forall|r: int| h.has(r) ==> h.ranks().contains(r as u32),
{
    lemma_ranks_between_props(h, 2, 14);
}

/// Folding any finite sequence of in-domain ranks into a holding and reading
/// the holding back in ascending order yields exactly the sorted,
/// deduplicated reading of the input: the output is strictly ascending and
/// mentions a rank exactly when the input does, whatever the input's order
/// and however often it repeats a rank.
pub proof fn lemma_fold_yields_sorted_dedup(h: Holding, xs: Seq<u32>)
    requires
        forall|i: int| 0 <= i < xs.len() ==> 2 <= #[trigger] xs[i] <= 14,
        forall|k: int| h.has(k) <==> xs.contains(k as u32) && 2 <= k <= 14,
    ensures
        forall|i: int, j: int|
            0 <= i < j < h.ranks().len() ==> #[trigger] h.ranks()[i] < #[trigger] h.ranks()[j],
        forall|r: u32| h.ranks().contains(r) <==> xs.contains(r),
{
    lemma_ranks_sorted_complete(h);
    assert forall|r: u32| h.ranks().contains(r) <==> xs.contains(r) by {
        if h.ranks().contains(r) {
            let w = choose|w: int| 0 <= w < h.ranks().len() && h.ranks()[w] == r;
            assert(h.has(h.ranks()[w] as int));
        }
        if xs.contains(r) {
            let w = choose|w: int| 0 <= w < xs.len() && xs[w] == r;
            assert(2 <= xs[w] <= 14);
            assert(h.has(r as int));
        }
    }
}

} // verus!
