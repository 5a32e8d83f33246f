use vstd::prelude::*;

use crate::events::Counts;
use crate::geography::Point;

verus! {

/// Keys of the association list are pairwise distinct.
pub open spec fn keys_distinct(s: Seq<(Point, u64)>) -> bool {
    forall|i: int, j: int| 0 <= i < j < s.len() ==> s[i].0 != s[j].0
}

/// Some entry tracks cell `q`.
pub open spec fn has_key(s: Seq<(Point, u64)>, q: Point) -> bool {
    exists|i: int| 0 <= i < s.len() && s[i].0 == q
}

/// Index of the entry tracking cell `q` (meaningful only when one exists).
pub open spec fn key_idx(s: Seq<(Point, u64)>, q: Point) -> int {
    choose|i: int| 0 <= i < s.len() && s[i].0 == q
}

/// Infection count tracked for cell `q`; zero when the cell is untracked.
pub open spec fn tracker_count(s: Seq<(Point, u64)>, q: Point) -> int {
    if has_key(s, q) {
        s[key_idx(s, q)].1 as int
    } else {
        0
    }
}

/// Saturating increment of a tracked count.
pub open spec fn bumped(c: int) -> int {
    if c < u64::MAX {
        c + 1
    } else {
        c
    }
}

/// How one infection report at `cell` rewrites the tracker: that cell's count
/// rises by one (saturating), every other cell keeps its count, and a new
/// entry appears only when the cell was untracked.
pub open spec fn infection_recorded(
    before: Seq<(Point, u64)>,
    after: Seq<(Point, u64)>,
    cell: Point,
) -> bool {
    &&& tracker_count(after, cell) == bumped(tracker_count(before, cell))
    &&& forall|q: Point| q != cell ==> tracker_count(after, q) == tracker_count(before, q)
    &&& after.len() == before.len() + (if has_key(before, cell) {
        0int
    } else {
        1int
    })
}

/// With distinct keys, any entry holding key `q` is the entry `key_idx`
/// names, so the tracked count is that entry's count.
proof fn lemma_key_idx_unique(s: Seq<(Point, u64)>, q: Point, i: int)
    requires
        keys_distinct(s),
        0 <= i < s.len(),
        s[i].0 == q,
    ensures
        has_key(s, q),
        key_idx(s, q) == i,
        tracker_count(s, q) == s[i].1 as int,
{
    assert(has_key(s, q));
    let j = key_idx(s, q);
    assert(0 <= j < s.len() && s[j].0 == q);
    assert(j == i);
}

/// Observer that accumulates an infection count per grid cell, kept as an
/// association list with pairwise-distinct keys.
pub struct Hotspot {
    cells: Vec<(Point, u64)>,
}

impl View for Hotspot {
    type V = Seq<(Point, u64)>;

    closed spec fn view(&self) -> Seq<(Point, u64)> {
        self.cells@
    }
}

impl Hotspot {
    pub open spec fn wf(&self) -> bool {
        keys_distinct(self@)
    }

    /// A fresh tracker tracks no cell at all.
    pub fn new() -> (tracker: Hotspot)
        ensures
            tracker.wf(),
            tracker@.len() == 0,
            forall|q: Point| tracker_count(tracker@, q) == 0,
    {
        Hotspot { cells: Vec::new() }
    }

    /// Number of cells with at least one recorded infection.
    pub fn tracked_cells(&self) -> (n: usize)
        ensures
            n == self@.len(),
    {
        self.cells.len()
    }

    /// The infection count recorded for `cell`.
    pub fn get_count(&self, cell: &Point) -> (n: u64)
        requires
            self.wf(),
        ensures
            n as int == tracker_count(self@, *cell),
    {
        let mut i: usize = 0;
        while i < self.cells.len()
            invariant
                self.wf(),
                i <= self@.len(),
                forall|k: int| 0 <= k < i ==> (#[trigger] self@[k]).0 != *cell,
            decreases self@.len() - i,
        {
            if self.cells[i].0 == *cell {
                proof {
                    lemma_key_idx_unique(self@, *cell, i as int);
                }
                return self.cells[i].1;
            }
            i += 1;
        }
        proof {
            assert(!has_key(self@, *cell));
        }
        0
    }

    /// One infection was observed at `cell`: bump that cell's tally.
    #[verifier::loop_isolation(false)]
    pub fn citizen_got_infected(&mut self, cell: &Point)
        requires
            old(self).wf(),
        ensures
            final(self).wf(),
            infection_recorded(old(self)@, final(self)@, *cell),
    {
        let ghost prev = self@;
        let mut i: usize = 0;
        while i < self.cells.len()
            invariant
                self.wf(),
                self@ == prev,
                i <= self@.len(),
                forall|k: int| 0 <= k < i ==> (#[trigger] self@[k]).0 != *cell,
            decreases self@.len() - i,
        {
            if self.cells[i].0 == *cell {
                let count = self.cells[i].1;
                let bumped_count = if count < u64::MAX {
                    count + 1
                } else {
                    count
                };
                self.cells.set(i, (*cell, bumped_count));
                proof {
                    lemma_key_idx_unique(prev, *cell, i as int);
                    assert(self@ == prev.update(i as int, (*cell, bumped_count)));
                    assert(keys_distinct(self@));
                    lemma_key_idx_unique(self@, *cell, i as int);
                    assert forall|q: Point| q != *cell implies tracker_count(self@, q)
                        == tracker_count(prev, q) by {
                        if has_key(prev, q) {
                            let w = key_idx(prev, q);
                            assert(0 <= w < prev.len() && prev[w].0 == q);
                            assert(self@[w].0 == q);
                            lemma_key_idx_unique(self@, q, w);
                            lemma_key_idx_unique(prev, q, w);
                        } else {
                            assert(forall|k: int|
                                0 <= k < self@.len() ==> (#[trigger] self@[k]).0 != q);
                            assert(!has_key(self@, q));
                        }
                    }
                }
                return ;
            }
            i += 1;
        }
        proof {
            assert(!has_key(prev, *cell));
        }
        self.cells.push((*cell, 1));
        proof {
            assert(self@ == prev.push((*cell, 1)));
            assert(self@[prev.len() as int] == (*cell, 1u64));
            assert(keys_distinct(self@));
            lemma_key_idx_unique(self@, *cell, prev.len() as int);
            assert forall|q: Point| q != *cell implies tracker_count(self@, q) == tracker_count(
                prev,
                q,
            ) by {
                if has_key(prev, q) {
                    let w = key_idx(prev, q);
                    assert(0 <= w < prev.len() && prev[w].0 == q);
                    assert(self@[w].0 == q);
                    lemma_key_idx_unique(self@, q, w);
                    lemma_key_idx_unique(prev, q, w);
                } else {
                    assert(forall|k: int| 0 <= k < self@.len() ==> (#[trigger] self@[k]).0 != q);
                    assert(!has_key(self@, q));
                }
            }
        }
    }

    /// Counts snapshots are ignored by this tracker.
    pub fn counts_updated(&mut self, _counts: Counts)
        ensures
            *final(self) == *old(self),
    {
    }

    /// End-of-run notifications are ignored by this tracker.
    pub fn simulation_ended(&mut self)
        ensures
            *final(self) == *old(self),
    {
    }
}

/// Law: reporting an infection twice for the same cell raises that cell's
/// tally by exactly two and leaves every other cell's tally untouched.
pub proof fn lemma_double_infection(
    s0: Seq<(Point, u64)>,
    s1: Seq<(Point, u64)>,
    s2: Seq<(Point, u64)>,
    p: Point,
)
    requires
        infection_recorded(s0, s1, p),
        infection_recorded(s1, s2, p),
        tracker_count(s0, p) + 2 <= u64::MAX,
    ensures
        tracker_count(s2, p) == tracker_count(s0, p) + 2,
        forall|q: Point| q != p ==> tracker_count(s2, q) == tracker_count(s0, q),
{
}

} // verus!
