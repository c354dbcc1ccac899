//! The sparse set of live cells and the generation rule.
//!
//! Only live cells are stored, so memory and the cost of one generation are
//! proportional to the number of live cells, not to any grid size. A cell is
//! alive exactly when it is in the set; everything else on the infinite grid
//! is dead.

use vstd::prelude::*;
use crate::cell::{Cell, in_cluster};

verus! {

/// Does the live cell `l` count toward the live-neighbor total of `c`?
/// It does when `c` lies in the (saturated) block around `l` and the two
/// differ, i.e. when `c` is one of the neighbors `l` is adjacent to.
pub open spec fn counts_toward(l: Cell, c: Cell) -> bool {
    in_cluster(c, l) && l != c
}

/// The number of live neighbors of `c` under the live set `live`.
pub open spec fn live_neighbor_count(live: Set<Cell>, c: Cell) -> nat {
    live.filter(|l: Cell| counts_toward(l, c)).len()
}

/// One step of the generation rule for a single cell: a cell is alive in the
/// next generation exactly when it has three live neighbors, or it is alive
/// now and has two. Every other cell is dead afterwards.
pub open spec fn alive_next(live: Set<Cell>, c: Cell) -> bool {
    ||| live_neighbor_count(live, c) == 3
    ||| (live.contains(c) && live_neighbor_count(live, c) == 2)
}

/// The simulation state: the set of live cells.
pub struct Life {
    cells: Vec<Cell>,
}

impl View for Life {
    type V = Set<Cell>;

    closed spec fn view(&self) -> Set<Cell> {
        self.cells@.to_set()
    }
}

/// Is `c` in the (saturated) block centered on `center`?
fn block_test(n: &Cell, center: &Cell) -> (r: bool)
    ensures
        r == in_cluster(*n, *center),
{
    let lo_i = crate::geometry::sat_sub_i64(center.i, 1);
    let hi_i = crate::geometry::sat_add_i64(center.i, 1);
    let lo_j = crate::geometry::sat_sub_i64(center.j, 1);
    let hi_j = crate::geometry::sat_add_i64(center.j, 1);
    lo_i <= n.i && n.i <= hi_i && lo_j <= n.j && n.j <= hi_j
}

/// Linear membership scan.
fn vec_contains(v: &Vec<Cell>, c: &Cell) -> (r: bool)
    ensures
        r == v@.contains(*c),
{
    let mut k: usize = 0;
    while k < v.len()
        invariant
            k <= v@.len(),
            forall|m: int| 0 <= m < k ==> v@[m] != *c,
        decreases v@.len() - k,
    {
        if v[k].i == c.i && v[k].j == c.j {
            return true;
        }
        k = k + 1;
    }
    false
}

/// Append `c` unless it is already present, keeping the vector free of
/// duplicates.
fn push_unique(v: &mut Vec<Cell>, c: Cell)
    requires
        old(v)@.no_duplicates(),
    ensures
        final(v)@.no_duplicates(),
        forall|x: Cell| final(v)@.contains(x) <==> (old(v)@.contains(x) || x == c),
{
    broadcast use vstd::seq_lib::group_seq_properties;

    if !vec_contains(v, &c) {
        v.push(c);
    }
}

/// The live neighbors of `c` among `cells`, counted one scan at a time.
fn count_live(cells: &Vec<Cell>, c: &Cell) -> (cnt: usize)
    requires
        cells@.no_duplicates(),
    ensures
        cnt == live_neighbor_count(cells@.to_set(), *c),
{
    broadcast use vstd::seq_lib::group_seq_properties;
    broadcast use vstd::seq_lib::seq_to_set_is_finite;
    broadcast use vstd::prelude::Seq::lemma_push_to_set_commute;

    let ghost pred = |l: Cell| counts_toward(l, *c);
    let mut cnt: usize = 0;
    let mut k: usize = 0;
    proof {
        assert(cells@.take(0) =~= Seq::<Cell>::empty());
        assert(cells@.take(0).to_set() =~= Set::<Cell>::empty());
        assert(cells@.take(0).to_set().filter(pred) =~= Set::<Cell>::empty());
    }
    while k < cells.len()
        invariant
            cells@.no_duplicates(),
            k <= cells@.len(),
            cnt <= k,
            pred == (|l: Cell| counts_toward(l, *c)),
            cnt == cells@.take(k as int).to_set().filter(pred).len(),
        decreases cells@.len() - k,
    {
        let l = cells[k];
        proof {
            let t0 = cells@.take(k as int);
            let t1 = cells@.take(k as int + 1);
            assert(t1 =~= t0.push(cells@[k as int]));
            t0.lemma_push_to_set_commute(l);
            assert(t1.to_set() =~= t0.to_set().insert(l));
            t0.to_set().lemma_len_filter(pred);
            if t0.contains(l) {
                let m = choose|m: int| 0 <= m < k && #[trigger] t0[m] == l;
                assert(cells@[m] == cells@[k as int]);
                assert(false);
            }
            assert(!t0.to_set().contains(l));
            if pred(l) {
                assert(t1.to_set().filter(pred) =~= t0.to_set().filter(pred).insert(l));
                assert(!t0.to_set().filter(pred).contains(l));
            } else {
                assert(t1.to_set().filter(pred) =~= t0.to_set().filter(pred));
            }
        }
        if block_test(c, &l) && !(l.i == c.i && l.j == c.j) {
            proof {
                assert(pred(l));
            }
            cnt = cnt + 1;
        } else {
            proof {
                assert(!pred(l));
            }
        }
        k = k + 1;
    }
    proof {
        assert(cells@.take(cells@.len() as int) =~= cells@);
    }
    cnt
}

impl Life {
    /// The stored vector lists each live cell exactly once.
    pub closed spec fn well_formed(&self) -> bool {
        self.cells@.no_duplicates()
    }

    /// An empty universe: every cell is dead.
    pub fn new() -> (r: Life)
        ensures
            r.well_formed(),
            r@ == Set::<Cell>::empty(),
    {
        let r = Life { cells: Vec::new() };
        proof {
            assert(r.cells@.to_set() =~= Set::<Cell>::empty());
        }
        r
    }

    /// Is `cell` alive?
    pub fn contains(&self, cell: &Cell) -> (r: bool)
        ensures
            r == self@.contains(*cell),
    {
        vec_contains(&self.cells, cell)
    }

    /// The live cells, each exactly once, in insertion order.
    pub fn live_cells(&self) -> (r: &Vec<Cell>)
        requires
            self.well_formed(),
        ensures
            r@.to_set() == self@,
            r@.no_duplicates(),
    {
        &self.cells
    }

    /// Mark `cell` alive. Idempotent: a second call changes nothing.
    pub fn populate(&mut self, cell: Cell)
        requires
            old(self).well_formed(),
        ensures
            final(self).well_formed(),
            final(self)@ == old(self)@.insert(cell),
    {
        broadcast use vstd::seq_lib::group_seq_properties;
        broadcast use vstd::prelude::Seq::lemma_push_to_set_commute;

        if !vec_contains(&self.cells, &cell) {
            self.cells.push(cell);
        } else {
            proof {
                assert(self.cells@.to_set() =~= self.cells@.to_set().insert(cell));
            }
        }
    }

    /// Mark `cell` dead. Idempotent: removing an absent cell is a no-op.
    pub fn unpopulate(&mut self, cell: &Cell)
        requires
            old(self).well_formed(),
        ensures
            final(self).well_formed(),
            final(self)@ == old(self)@.remove(*cell),
    {
        broadcast use vstd::seq_lib::group_seq_properties;

        let mut k: usize = 0;
        while k < self.cells.len()
            invariant
                self.cells@ == old(self).cells@,
                self.cells@.no_duplicates(),
                k <= self.cells@.len(),
                forall|m: int| 0 <= m < k ==> self.cells@[m] != *cell,
            decreases self.cells@.len() - k,
        {
            if self.cells[k].i == cell.i && self.cells[k].j == cell.j {
                let ghost before = self.cells@;
                proof {
                    assert(before[k as int] == *cell);
                }
                self.cells.remove(k);
                proof {
                    lemma_seq_remove_to_set(before, k as int, *cell);
                }
                return ;
            }
            k = k + 1;
        }
        proof {
            assert(!self.cells@.contains(*cell));
            assert(self.cells@.to_set() =~= self.cells@.to_set().remove(*cell));
        }
    }

    /// Advance one generation: apply the rule to a snapshot of the current
    /// generation, so no change takes effect before the whole generation has
    /// been evaluated.
    pub fn tick(&mut self)
        requires
            old(self).well_formed(),
        ensures
            final(self).well_formed(),
            forall|c: Cell| final(self)@.contains(c) <==> alive_next(old(self)@, c),
    {
        broadcast use vstd::seq_lib::group_seq_properties;
        broadcast use vstd::seq_lib::seq_to_set_is_finite;

        let ghost old_set = self.cells@.to_set();

        // Every cell that is alive, or lies in the block around a live cell:
        // no other cell can be alive next generation.
        let mut cands: Vec<Cell> = Vec::new();
        let mut idx: usize = 0;
        while idx < self.cells.len()
            invariant
                self.cells@ == old(self).cells@,
                self.cells@.no_duplicates(),
                idx <= self.cells@.len(),
                cands@.no_duplicates(),
                forall|x: Cell| cands@.contains(x) <==> exists|t: int|
                    0 <= t < idx && #[trigger] in_cluster(x, self.cells@[t]),
            decreases self.cells@.len() - idx,
        {
            let l = self.cells[idx];
            let block = crate::cell::Cell::cluster(l);
            let mut m: usize = 0;
            while m < block.len()
                invariant
                    self.cells@ == old(self).cells@,
                    self.cells@.no_duplicates(),
                    idx < self.cells@.len(),
                    l == self.cells@[idx as int],
                    block@.no_duplicates(),
                    forall|n: Cell| block@.contains(n) <==> in_cluster(n, l),
                    m <= block@.len(),
                    cands@.no_duplicates(),
                    forall|x: Cell| cands@.contains(x) <==> ((exists|t: int|
                        0 <= t < idx && #[trigger] in_cluster(x, self.cells@[t]))
                        || block@.take(m as int).contains(x)),
                decreases block@.len() - m,
            {
                let b = block[m];
                let ghost before = cands@;
                push_unique(&mut cands, b);
                proof {
                    let t0 = block@.take(m as int);
                    let t1 = block@.take(m as int + 1);
                    assert(t1 =~= t0.push(block@[m as int]));
                    assert forall|x: Cell| cands@.contains(x) implies ((exists|t: int|
                        0 <= t < idx && #[trigger] in_cluster(x, self.cells@[t]))
                        || t1.contains(x)) by {
                        if x == b {
                            assert(t1[m as int] == x);
                            assert(t1.contains(x));
                        } else {
                            assert(before.contains(x));
                            if t0.contains(x) {
                                let w = choose|w: int| 0 <= w < t0.len() && #[trigger] t0[w] == x;
                                assert(t1[w] == x);
                                assert(t1.contains(x));
                            }
                        }
                    }
                    assert forall|x: Cell| ((exists|t: int|
                        0 <= t < idx && #[trigger] in_cluster(x, self.cells@[t]))
                        || t1.contains(x)) implies cands@.contains(x) by {
                        if t1.contains(x) {
                            let w = choose|w: int| 0 <= w < t1.len() && #[trigger] t1[w] == x;
                            if w < m {
                                assert(t0[w] == x);
                                assert(t0.contains(x));
                                assert(before.contains(x));
                            } else {
                                assert(x == b);
                            }
                        }
                    }
                }
                m = m + 1;
            }
            proof {
                assert(block@.take(block@.len() as int) =~= block@);
                assert forall|x: Cell| cands@.contains(x) implies exists|t: int|
                    0 <= t < idx + 1 && #[trigger] in_cluster(x, self.cells@[t]) by {
                    if block@.contains(x) {
                        assert(in_cluster(x, self.cells@[idx as int]));
                    }
                }
            }
            idx = idx + 1;
        }

        // Decide each candidate from the snapshot.
        let mut next: Vec<Cell> = Vec::new();
        let mut ci: usize = 0;
        while ci < cands.len()
            invariant
                self.cells@ == old(self).cells@,
                self.cells@.no_duplicates(),
                old_set == self.cells@.to_set(),
                cands@.no_duplicates(),
                forall|x: Cell| cands@.contains(x) <==> exists|t: int|
                    0 <= t < self.cells@.len() && #[trigger] in_cluster(x, self.cells@[t]),
                ci <= cands@.len(),
                next@.no_duplicates(),
                forall|x: Cell| #[trigger] next@.contains(x)
                    <==> (cands@.take(ci as int).contains(x) && alive_next(old_set, x)),
            decreases cands@.len() - ci,
        {
            let c = cands[ci];
            let cnt = count_live(&self.cells, &c);
            let alive = vec_contains(&self.cells, &c);
            let ghost next_before = next@;
            proof {
                assert(alive == old_set.contains(c));
            }
            if cnt == 3 || (alive && cnt == 2) {
                proof {
                    if next@.contains(c) {
                        assert(cands@.take(ci as int).contains(c));
                        let t0 = cands@.take(ci as int);
                        let m = choose|m: int| 0 <= m < t0.len() && #[trigger] t0[m] == c;
                        assert(cands@[m] == cands@[ci as int]);
                        assert(false);
                    }
                }
                next.push(c);
            }
            proof {
                let t0 = cands@.take(ci as int);
                let t1 = cands@.take(ci as int + 1);
                assert(t1 =~= t0.push(cands@[ci as int]));
                assert(alive_next(old_set, c) == (cnt == 3 || (alive && cnt == 2)));
                assert forall|x: Cell| next@.contains(x)
                    implies (t1.contains(x) && alive_next(old_set, x)) by {
                    if next_before.contains(x) {
                        assert(t0.contains(x));
                        let m = choose|m: int| 0 <= m < t0.len() && #[trigger] t0[m] == x;
                        assert(t1[m] == x);
                        assert(t1.contains(x));
                    } else {
                        let w = choose|w: int| 0 <= w < next@.len() && #[trigger] next@[w] == x;
                        assert(w == next_before.len());
                        assert(x == c);
                        assert(t1[ci as int] == x);
                        assert(t1.contains(x));
                    }
                }
                assert forall|x: Cell| t1.contains(x) && alive_next(old_set, x)
                    implies next@.contains(x) by {
                    let m = choose|m: int| 0 <= m < t1.len() && #[trigger] t1[m] == x;
                    if m < ci {
                        assert(t0[m] == x);
                        assert(t0.contains(x));
                        assert(next_before.contains(x));
                        let w = choose|w: int|
                            0 <= w < next_before.len() && #[trigger] next_before[w] == x;
                        assert(next@[w] == x);
                    } else {
                        assert(x == c);
                        assert(next@[next_before.len() as int] == c);
                    }
                    assert(next@.contains(x));
                }
            }
            ci = ci + 1;
        }

        self.cells = next;

        proof {
            assert(cands@.take(cands@.len() as int) =~= cands@);
            assert forall|c: Cell| self@.contains(c) <==> alive_next(old_set, c) by {
                assert(self@.contains(c) == next@.contains(c));
                if alive_next(old_set, c) {
                    if !cands@.contains(c) {
                        lemma_alive_next_has_witness(old_set, c);
                        let l = choose|l: Cell|
                            old_set.contains(l) && #[trigger] counts_toward(l, c);
                        assert(old(self).cells@.contains(l));
                        let t = choose|t: int|
                            0 <= t < old(self).cells@.len() && #[trigger] old(self).cells@[t] == l;
                        assert(in_cluster(c, old(self).cells@[t]));
                        assert(false);
                    }
                    assert(next@.contains(c));
                }
            }
        }
    }
}

/// The branch shape of the rule equals the usual statement of Conway's
/// rule: a live cell survives on two or three live neighbors, a dead cell is
/// born on exactly three. The "two neighbors leave the cell unchanged"
/// branch can revive nothing, because an unvisited cell has no live neighbor
/// at all.
pub proof fn lemma_rule_is_conway(live: Set<Cell>, c: Cell)
    ensures
        alive_next(live, c) <==> ({
            let n = live_neighbor_count(live, c);
            if live.contains(c) {
                n == 2 || n == 3
            } else {
                n == 3
            }
        }),
{
}

/// Populating is idempotent: marking a cell alive a second time changes
/// nothing, and the cell is a member exactly once, set-membership being all
/// there is to being alive. Stated over the model that [`Life::populate`]
/// ensures, `self@ == old(self)@.insert(cell)`.
pub proof fn lemma_populate_idempotent(live: Set<Cell>, c: Cell)
    ensures
        live.insert(c).insert(c) == live.insert(c),
        live.insert(c).contains(c),
{
    assert(live.insert(c).insert(c) =~= live.insert(c));
}

/// Unpopulating an absent cell is a no-op, and unpopulating twice is the same
/// as unpopulating once. Stated over the model that [`Life::unpopulate`]
/// ensures, `self@ == old(self)@.remove(*cell)`.
pub proof fn lemma_unpopulate_idempotent(live: Set<Cell>, c: Cell)
    ensures
        !live.contains(c) ==> live.remove(c) == live,
        live.remove(c).remove(c) == live.remove(c),
        !live.remove(c).contains(c),
{
    if !live.contains(c) {
        assert(live.remove(c) =~= live);
    }
    assert(live.remove(c).remove(c) =~= live.remove(c));
}

/// A cell alive in the next generation has at least one live cell adjacent to
/// it in the current one.
proof fn lemma_alive_next_has_witness(live: Set<Cell>, c: Cell)
    requires
        live.finite(),
        alive_next(live, c),
    ensures
        exists|l: Cell| live.contains(l) && #[trigger] counts_toward(l, c),
{
    let pred = |l: Cell| counts_toward(l, c);
    let fs = live.filter(pred);
    live.lemma_len_filter(pred);
    if forall|l: Cell| !(#[trigger] fs.contains(l)) {
        assert(fs =~= Set::<Cell>::empty());
        assert(fs.len() == 0);
        assert(false);
    }
    let l = choose|l: Cell| fs.contains(l);
    assert(live.contains(l) && counts_toward(l, c));
}

/// Removing the only occurrence of `c` from a duplicate-free sequence removes
/// exactly `c` from the set of its elements.
proof fn lemma_seq_remove_to_set(s: Seq<Cell>, k: int, c: Cell)
    requires
        s.no_duplicates(),
        0 <= k < s.len(),
        s[k] == c,
    ensures
        s.remove(k).no_duplicates(),
        s.remove(k).to_set() == s.to_set().remove(c),
{
    broadcast use vstd::seq_lib::group_seq_properties;

    let r = s.remove(k);
    assert(r.len() == s.len() - 1);
    assert forall|m: int| 0 <= m < r.len() implies
        #[trigger] r[m] == (if m < k { s[m] } else { s[m + 1] }) by {}
    assert forall|m1: int, m2: int| 0 <= m1 < m2 < r.len() implies r[m1] != r[m2] by {
        let o1 = if m1 < k { m1 } else { m1 + 1 };
        let o2 = if m2 < k { m2 } else { m2 + 1 };
        assert(r[m1] == s[o1] && r[m2] == s[o2]);
        assert(o1 != o2);
    }
    assert(r.no_duplicates());
    assert forall|x: Cell| r.to_set().contains(x) <==> s.to_set().remove(c).contains(x) by {
        if r.contains(x) {
            let m = choose|m: int| 0 <= m < r.len() && #[trigger] r[m] == x;
            let o = if m < k { m } else { m + 1 };
            assert(s[o] == x);
            assert(s.contains(x));
            assert(x != c);
        }
        if s.contains(x) && x != c {
            let o = choose|o: int| 0 <= o < s.len() && #[trigger] s[o] == x;
            assert(o != k);
            let m = if o < k { o } else { o - 1 };
            assert(r[m] == x);
            assert(r.contains(x));
        }
    }
    assert(r.to_set() =~= s.to_set().remove(c));
}

} // verus!
