//! The registry: the live bubbles, each under a handle of its own.

use vstd::prelude::*;
use crate::bubble::Bubble;
use crate::screen::{Vector, Window};

verus! {

/// A live bubble and the handle it was given when it was placed.
#[derive(Clone, Copy, Debug, PartialEq, Eq, Structural)]
pub struct Entry {
    pub id: u64,
    pub bubble: Bubble,
}

/// The live bubbles in the order in which they were placed. A handle is
/// given once and never again.
pub struct Registry {
    entries: Vec<Entry>,
    next_id: u64,
}

impl View for Registry {
    type V = Seq<Entry>;

    closed spec fn view(&self) -> Seq<Entry> {
        self.entries@
    }
}

/// An entry after a step of length `dt`: moved and reflected where the new
/// position is storable, untouched where it is not.
pub open spec fn drift(e: Entry, dt: i64, window: Window) -> Entry {
    Entry {
        id: e.id,
        bubble: if e.bubble.can_advance(dt) {
            e.bubble.advanced(dt, window)
        } else {
            e.bubble
        },
    }
}

/// The entries whose bubble contains `point`.
pub open spec fn hit(point: Vector) -> spec_fn(Entry) -> bool {
    |e: Entry| e.bubble.contains(point)
}

/// The entries whose bubble does not contain `point`.
pub open spec fn missed(point: Vector) -> spec_fn(Entry) -> bool {
    |e: Entry| !e.bubble.contains(point)
}

/// The handle of an entry.
pub open spec fn handle() -> spec_fn(Entry) -> u64 {
    |e: Entry| e.id
}

/// The entries after the pair at `i` and `j` was examined: both replaced by
/// what the collision makes of them, or nothing changed.
pub open spec fn pair_resolved(s: Seq<Entry>, i: int, j: int) -> Seq<Entry> {
    if s[i].bubble.can_collide(s[j].bubble) {
        s.update(i, Entry { id: s[i].id, bubble: s[i].bubble.rebound(s[j].bubble) }).update(
            j,
            Entry { id: s[j].id, bubble: s[j].bubble.rebound(s[i].bubble) },
        )
    } else {
        s
    }
}

/// The entries after entry `i` was examined against each entry from
/// `i + 1` up to, not including, `j`, in that order.
pub open spec fn row_resolved(s: Seq<Entry>, i: int, j: int) -> Seq<Entry>
    decreases j,
{
    if j <= i + 1 || j <= 0 {
        s
    } else {
        pair_resolved(row_resolved(s, i, j - 1), i, j - 1)
    }
}

/// The entries after each of the first `i` entries was examined against
/// every entry behind it.
pub open spec fn rows_resolved(s: Seq<Entry>, i: int) -> Seq<Entry>
    decreases i,
{
    if i <= 0 {
        s
    } else {
        row_resolved(rows_resolved(s, i - 1), i - 1, s.len() as int)
    }
}

/// The entries after every unordered pair was examined exactly once: pair
/// `(i, j)` with `i < j` comes before `(k, l)` where `i < k`, or `i == k`
/// and `j < l`.
pub open spec fn all_resolved(s: Seq<Entry>) -> Seq<Entry> {
    rows_resolved(s, s.len() as int)
}

impl Registry {
    /// The handle that the next bubble will get.
    pub closed spec fn fresh(&self) -> u64 {
        self.next_id
    }

    /// Every bubble is well formed, and the handles grow along the
    /// sequence and lie below the next one to be given.
    pub open spec fn wf(&self) -> bool {
        &&& forall|i: int|
            0 <= i < self@.len() ==> (#[trigger] self@[i]).bubble.wf() && self@[i].id
                < self.fresh()
        &&& forall|i: int, j: int|
            0 <= i < j < self@.len() ==> (#[trigger] self@[i]).id < (#[trigger] self@[j]).id
    }

    /// An empty registry.
    pub fn new() -> (r: Registry)
        ensures
            r.wf(),
            r@ == Seq::<Entry>::empty(),
            r.fresh() == 0,
    {
        Registry { entries: Vec::new(), next_id: 0 }
    }

    /// The number of live bubbles.
    pub fn len(&self) -> (n: usize)
        ensures
            n == self@.len(),
    {
        self.entries.len()
    }

    /// Whether no bubble is alive: the round is over.
    pub fn run_if_no_bubbles(&self) -> (r: bool)
        ensures
            r == (self@.len() == 0),
    {
        self.entries.len() == 0
    }

    /// The entry at position `index`, if there is one.
    pub fn get(&self, index: usize) -> (r: Option<Entry>)
        ensures
            r == (if index < self@.len() {
                Some(self@[index as int])
            } else {
                None
            }),
    {
        if index < self.entries.len() {
            Some(self.entries[index])
        } else {
            None
        }
    }

    /// Whether a bubble would overlap one that is alive.
    pub fn overlaps_any(&self, bubble: &Bubble) -> (r: bool)
        requires
            self.wf(),
            bubble.wf(),
        ensures
            r == exists|i: int| 0 <= i < self@.len() && (#[trigger] self@[i]).bubble.overlaps(*bubble),
    {
        let mut i: usize = 0;
        while i < self.entries.len()
            invariant
                self.wf(),
                bubble.wf(),
                i <= self@.len(),
                forall|k: int| 0 <= k < i ==> !(#[trigger] self@[k]).bubble.overlaps(*bubble),
            decreases self@.len() - i,
        {
            if self.entries[i].bubble.touches(bubble) {
                return true;
            }
            i = i + 1;
        }
        false
    }

    /// Adds a bubble under a fresh handle and gives the handle back; adds
    /// nothing once every handle has been given.
    pub fn insert(&mut self, bubble: Bubble) -> (r: Option<u64>)
        requires
            old(self).wf(),
            bubble.wf(),
        ensures
            final(self).wf(),
            r == (if old(self).fresh() < u64::MAX {
                Some(old(self).fresh())
            } else {
                None
            }),
            r matches Some(id) ==> final(self)@ == old(self)@.push(Entry { id, bubble })
                && final(self).fresh() == id + 1,
            r is None ==> final(self)@ == old(self)@ && final(self).fresh() == old(self).fresh(),
    {
        if self.next_id == u64::MAX {
            return None;
        }
        let id: u64 = self.next_id;
        let ghost before = self@;
        self.entries.push(Entry { id, bubble });
        self.next_id = id + 1;
        proof {
            assert forall|i: int| 0 <= i < self@.len() implies (#[trigger] self@[i]).bubble.wf()
                && self@[i].id < self.fresh() by {
                if i < before.len() {
                    assert(self@[i] == before[i]);
                }
            }
            assert forall|i: int, j: int| 0 <= i < j < self@.len() implies (#[trigger] self@[i]).id
                < (#[trigger] self@[j]).id by {
                assert(self@[i] == before[i]);
                if j < before.len() {
                    assert(self@[j] == before[j]);
                }
            }
        }
        Some(id)
    }

    /// Advances every bubble by one step of length `dt`.
    pub fn move_bubbles(&mut self, dt: i64, window: &Window)
        requires
            old(self).wf(),
            window.wf(),
        ensures
            final(self).wf(),
            final(self).fresh() == old(self).fresh(),
            final(self)@ == old(self)@.map_values(|e: Entry| drift(e, dt, *window)),
    {
        let ghost before = self@;
        let n: usize = self.entries.len();
        let mut i: usize = 0;
        while i < n
            invariant
                window.wf(),
                i <= n,
                n == before.len(),
                self@.len() == n,
                self.fresh() == old(self).fresh(),
                forall|k: int|
                    0 <= k < n ==> (#[trigger] before[k]).bubble.wf() && before[k].id
                        < self.fresh(),
                forall|k: int, l: int|
                    0 <= k < l < n ==> (#[trigger] before[k]).id < (#[trigger] before[l]).id,
                forall|k: int| 0 <= k < i ==> #[trigger] self@[k] == drift(before[k], dt, *window),
                forall|k: int| i <= k < n ==> #[trigger] self@[k] == before[k],
            decreases n - i,
        {
            let e: Entry = self.entries[i];
            if let Some(moved) = e.bubble.advance(dt, window) {
                self.entries.set(i, Entry { id: e.id, bubble: moved });
            }
            i = i + 1;
        }
    }

    /// Examines every unordered pair of bubbles once and resolves the
    /// collisions found, each against the bubbles as the pairs before it
    /// left them.
    pub fn check_collision(&mut self)
        requires
            old(self).wf(),
        ensures
            final(self).wf(),
            final(self).fresh() == old(self).fresh(),
            final(self)@ == all_resolved(old(self)@),
            final(self)@.len() == old(self)@.len(),
            forall|k: int| 0 <= k < old(self)@.len() ==> (#[trigger] final(self)@[k]).id == old(self)@[k].id,
    {
        let ghost before = self@;
        let n: usize = self.entries.len();
        let mut i: usize = 0;
        while i < n
            invariant
                i <= n,
                n == before.len(),
                self@.len() == n,
                self.fresh() == old(self).fresh(),
                old(self).wf(),
                before == old(self)@,
                forall|k: int| 0 <= k < n ==> (#[trigger] self@[k]).id == before[k].id,
                forall|k: int| 0 <= k < n ==> (#[trigger] self@[k]).bubble.wf(),
                self@ == rows_resolved(before, i as int),
            decreases n - i,
        {
            let ghost row = self@;
            let mut j: usize = i + 1;
            while j < n
                invariant
                    i < n,
                    i + 1 <= j <= n,
                    n == before.len(),
                    self@.len() == n,
                    row.len() == n,
                    self.fresh() == old(self).fresh(),
                    forall|k: int| 0 <= k < n ==> (#[trigger] self@[k]).id == before[k].id,
                    forall|k: int| 0 <= k < n ==> (#[trigger] self@[k]).bubble.wf(),
                    self@ == row_resolved(row, i as int, j as int),
                decreases n - j,
            {
                let a: Entry = self.entries[i];
                let b: Entry = self.entries[j];
                let ghost current = self@;
                if let Some(pair) = a.bubble.collide(&b.bubble) {
                    self.entries.set(i, Entry { id: a.id, bubble: pair.0 });
                    self.entries.set(j, Entry { id: b.id, bubble: pair.1 });
                }
                assert(self@ == pair_resolved(current, i as int, j as int));
                j = j + 1;
            }
            i = i + 1;
        }
        proof {
            assert forall|k: int, l: int| 0 <= k < l < self@.len() implies (#[trigger] self@[k]).id
                < (#[trigger] self@[l]).id by {
                assert(before[k].id < before[l].id);
            }
            assert forall|k: int| 0 <= k < self@.len() implies (#[trigger] self@[k]).bubble.wf()
                && self@[k].id < self.fresh() by {
                assert(before[k].id < old(self).fresh());
            }
        }
    }

    /// Removes every bubble that contains `point` and gives back the
    /// handles of the bubbles removed, in the order in which they stood.
    pub fn pop_at(&mut self, point: &Vector) -> (popped: Vec<u64>)
        requires
            old(self).wf(),
            point.wf(),
        ensures
            final(self).wf(),
            final(self).fresh() == old(self).fresh(),
            final(self)@ == old(self)@.filter(missed(*point)),
            popped@ == old(self)@.filter(hit(*point)).map_values(handle()),
            popped@.len() + final(self)@.len() == old(self)@.len(),
    {
        let ghost before = self@;
        let n: usize = self.entries.len();
        let mut kept: Vec<Entry> = Vec::new();
        let mut popped: Vec<u64> = Vec::new();
        let mut i: usize = 0;
        proof {
            reveal(Seq::filter);
            assert(before.take(0) =~= Seq::<Entry>::empty());
        }
        while i < n
            invariant
                i <= n,
                n == before.len(),
                before == self@,
                self.wf(),
                point.wf(),
                kept@ == before.take(i as int).filter(missed(*point)),
                popped@.len() + kept@.len() == i,
                popped@ == before.take(i as int).filter(hit(*point)).map_values(handle()),
                forall|k: int|
                    0 <= k < kept@.len() ==> (#[trigger] kept@[k]).bubble.wf() && kept@[k].id
                        < self.fresh(),
                forall|k: int, l: int|
                    0 <= k < l < kept@.len() ==> (#[trigger] kept@[k]).id < (#[trigger] kept@[l]).id,
                forall|k: int, l: int|
                    0 <= k < kept@.len() && i <= l < n ==> (#[trigger] kept@[k]).id < (
                    #[trigger] before[l]).id,
            decreases n - i,
        {
            let e: Entry = self.entries[i];
            proof {
                reveal(Seq::filter);
                assert(before.take(i + 1).drop_last() =~= before.take(i as int));
                assert(before.take(i + 1).last() == before[i as int]);
            }
            if e.bubble.hit_by(point) {
                popped.push(e.id);
                assert(popped@ =~= before.take(i + 1).filter(hit(*point)).map_values(handle()));
            } else {
                kept.push(e);
            }
            i = i + 1;
        }
        proof {
            assert(before.take(n as int) =~= before);
        }
        self.entries = kept;
        popped
    }
}

} // verus!
