//! The play queue: an ordered sequence of tracks and a cursor, navigated
//! with wrap-around.

use crate::track::{TrackInfo, TrackView};
use vstd::prelude::*;

verus! {

/// The position after `c` in a queue of `n` tracks: past the end wraps to 0.
pub open spec fn wrap_next(c: int, n: int) -> int {
    if c + 1 >= n {
        0
    } else {
        c + 1
    }
}

/// The position before `c` in a queue of `n` tracks: before 0 wraps to `n - 1`.
pub open spec fn wrap_previous(c: int, n: int) -> int {
    if c == 0 {
        n - 1
    } else {
        c - 1
    }
}

/// Stepping forward then back, or back then forward, returns to the same
/// position of a non-empty queue; both steps are the ±1 of arithmetic mod n.
pub proof fn lemma_next_previous_inverse(n: int, c: int)
    requires
        n >= 1,
        0 <= c < n,
    ensures
        wrap_previous(wrap_next(c, n), n) == c,
        wrap_next(wrap_previous(c, n), n) == c,
        wrap_next(c, n) == (c + 1) % n,
        wrap_previous(c, n) == (c + n - 1) % n,
{
    if c + 1 < n {
        assert((c + 1) % n == c + 1) by (nonlinear_arith)
            requires
                0 <= c + 1 < n,
        ;
    } else {
        assert((c + 1) % n == 0) by (nonlinear_arith)
            requires
                c + 1 == n,
                n >= 1,
        ;
    }
    if c == 0 {
        assert((c + n - 1) % n == n - 1) by (nonlinear_arith)
            requires
                c == 0,
                n >= 1,
        ;
    } else {
        assert((c + n - 1) % n == c - 1) by (nonlinear_arith)
            requires
                1 <= c < n,
        ;
    }
}

/// The first position whose track has id `id`, or 0 where none has.
pub open spec fn anchor_index(s: Seq<TrackView>, id: Seq<char>) -> int {
    if exists|i: int| 0 <= i < s.len() && #[trigger] s[i].id == id {
        choose|i: int|
            0 <= i < s.len() && #[trigger] s[i].id == id && forall|j: int|
                0 <= j < i ==> #[trigger] s[j].id != id
    } else {
        0
    }
}

pub open spec fn views_of(s: Seq<TrackInfo>) -> Seq<TrackView> {
    s.map_values(|t: TrackInfo| t@)
}

proof fn lemma_first_match(vs: Seq<TrackView>, id: Seq<char>, i: int)
    requires
        0 <= i < vs.len(),
        vs[i].id == id,
    ensures
        exists|k: int|
            0 <= k < vs.len() && #[trigger] vs[k].id == id && forall|j: int|
                0 <= j < k ==> #[trigger] vs[j].id != id,
    decreases i,
{
    if exists|j: int| 0 <= j < i && #[trigger] vs[j].id == id {
        let j = choose|j: int| 0 <= j < i && #[trigger] vs[j].id == id;
        lemma_first_match(vs, id, j);
    } else {
        assert(forall|j: int| 0 <= j < i ==> #[trigger] vs[j].id != id);
    }
}

/// Starting a shuffled queue at an anchor: whatever order the shuffle gave,
/// the queue still holds the anchor if the list did, the cursor lands on a
/// track with the anchor's id if the list has one, and on 0 otherwise.
pub proof fn lemma_start_at_keeps_anchor(tracks: Seq<TrackInfo>, s: Seq<TrackInfo>, anchor: TrackInfo)
    requires
        s.to_multiset() == tracks.to_multiset(),
    ensures
        tracks.contains(anchor) ==> views_of(s).contains(anchor@),
        (exists|i: int| 0 <= i < tracks.len() && #[trigger] tracks[i].id@ == anchor.id@) ==> {
            let k = anchor_index(views_of(s), anchor.id@);
            &&& 0 <= k < s.len()
            &&& views_of(s)[k].id == anchor.id@
        },
        !(exists|i: int| 0 <= i < tracks.len() && #[trigger] tracks[i].id@ == anchor.id@)
            ==> anchor_index(views_of(s), anchor.id@) == 0,
{
    broadcast use vstd::seq_lib::group_to_multiset_ensures;

    let vs = views_of(s);
    if tracks.contains(anchor) {
        assert(tracks.to_multiset().count(anchor) > 0);
        assert(s.contains(anchor));
        let j = choose|j: int| 0 <= j < s.len() && s[j] == anchor;
        assert(vs[j] == anchor@);
    }
    if exists|i: int| 0 <= i < tracks.len() && #[trigger] tracks[i].id@ == anchor.id@ {
        let i = choose|i: int| 0 <= i < tracks.len() && #[trigger] tracks[i].id@ == anchor.id@;
        let t = tracks[i];
        assert(tracks.contains(t));
        assert(tracks.to_multiset().count(t) > 0);
        assert(s.contains(t));
        let j = choose|j: int| 0 <= j < s.len() && s[j] == t;
        assert(vs[j].id == anchor.id@);
        lemma_first_match(vs, anchor.id@, j);
    } else {
        assert forall|j: int| 0 <= j < vs.len() implies #[trigger] vs[j].id != anchor.id@ by {
            if vs[j].id == anchor.id@ {
                assert(s.contains(s[j]));
                assert(s.to_multiset().count(s[j]) > 0);
                assert(tracks.contains(s[j]));
                let i = choose|i: int| 0 <= i < tracks.len() && tracks[i] == s[j];
                assert(tracks[i].id@ == anchor.id@);
            }
        }
    }
}

/// Position of the first track with the given id, or 0 where none has it.
pub fn find_track(tracks: &Vec<TrackInfo>, id: &String) -> (r: usize)
    ensures
        r as int == anchor_index(views_of(tracks@), id@),
        (exists|i: int| 0 <= i < tracks@.len() && #[trigger] tracks@[i].id@ == id@) ==> r
            < tracks@.len() && tracks@[r as int].id@ == id@,
{
    let ghost vs = views_of(tracks@);
    let mut i: usize = 0;
    while i < tracks.len()
        invariant
            vs == views_of(tracks@),
            i <= tracks@.len(),
            forall|j: int| 0 <= j < i ==> #[trigger] tracks@[j].id@ != id@,
        decreases tracks@.len() - i,
    {
        if tracks[i].id == *id {
            proof {
                assert(vs[i as int].id == id@);
                assert forall|j: int| 0 <= j < i implies #[trigger] vs[j].id != id@ by {
                    assert(vs[j].id == tracks@[j].id@);
                }
                let k = anchor_index(vs, id@);
                assert(0 <= k < vs.len() && vs[k].id == id@ && forall|j: int|
                    0 <= j < k ==> #[trigger] vs[j].id != id@);
                if k < i {
                    assert(vs[k].id == tracks@[k].id@);
                }
                if k > i {
                    assert(vs[i as int].id != id@);
                }
            }
            return i;
        }
        i = i + 1;
    }
    proof {
        assert forall|j: int| 0 <= j < vs.len() implies #[trigger] vs[j].id != id@ by {
            assert(vs[j].id == tracks@[j].id@);
        }
    }
    0
}

/// The queue's model: the tracks and the cursor.
pub struct QueueView {
    pub tracks: Seq<TrackView>,
    pub current: int,
}

pub struct PlayQueue {
    tracks: Vec<TrackInfo>,
    current: usize,
}

impl View for PlayQueue {
    type V = QueueView;

    closed spec fn view(&self) -> QueueView {
        QueueView { tracks: views_of(self.tracks@), current: self.current as int }
    }
}

impl PlayQueue {
    /// The cursor points into the tracks, or is 0 for an empty queue.
    pub open spec fn wf(&self) -> bool {
        &&& self@.tracks.len() == 0 ==> self@.current == 0
        &&& self@.tracks.len() > 0 ==> 0 <= self@.current < self@.tracks.len()
    }

    /// An empty queue: no active playback.
    pub fn new() -> (r: PlayQueue)
        ensures
            r.wf(),
            r@.tracks.len() == 0,
            r@.current == 0,
    {
        PlayQueue { tracks: Vec::new(), current: 0 }
    }

    /// A queue of `tracks` with the cursor at `start`.
    pub fn starting_at(tracks: Vec<TrackInfo>, start: usize) -> (r: PlayQueue)
        requires
            start < tracks@.len(),
        ensures
            r.wf(),
            r@.tracks == views_of(tracks@),
            r@.current == start,
    {
        PlayQueue { tracks, current: start }
    }

    pub fn len(&self) -> (r: usize)
        ensures
            r == self@.tracks.len(),
    {
        self.tracks.len()
    }

    pub fn is_empty(&self) -> (r: bool)
        ensures
            r == (self@.tracks.len() == 0),
    {
        self.tracks.len() == 0
    }

    pub fn current(&self) -> (r: usize)
        ensures
            r == self@.current,
    {
        self.current
    }

    pub fn track(&self, i: usize) -> (r: &TrackInfo)
        requires
            i < self@.tracks.len(),
        ensures
            r@ == self@.tracks[i as int],
    {
        &self.tracks[i]
    }

    /// The position after the cursor, with wrap-around.
    pub fn next_index(&self) -> (r: usize)
        requires
            self.wf(),
            self@.tracks.len() > 0,
        ensures
            r == wrap_next(self@.current, self@.tracks.len() as int),
            r < self@.tracks.len(),
    {
        assert(self@.tracks.len() == self.tracks@.len());
        if self.current >= self.tracks.len() - 1 {
            0
        } else {
            self.current + 1
        }
    }

    /// The position before the cursor, with wrap-around.
    pub fn previous_index(&self) -> (r: usize)
        requires
            self.wf(),
            self@.tracks.len() > 0,
        ensures
            r == wrap_previous(self@.current, self@.tracks.len() as int),
            r < self@.tracks.len(),
    {
        if self.current == 0 {
            self.tracks.len() - 1
        } else {
            self.current - 1
        }
    }

    /// Moves the cursor to `i`.
    pub fn set_current(&mut self, i: usize)
        requires
            i < old(self)@.tracks.len(),
        ensures
            final(self).wf(),
            final(self)@.tracks == old(self)@.tracks,
            final(self)@.current == i,
    {
        self.current = i;
    }

    /// Moves the cursor one track forward, wrapping past the end.
    pub fn next(&mut self)
        requires
            old(self).wf(),
            old(self)@.tracks.len() > 0,
        ensures
            final(self).wf(),
            final(self)@.tracks == old(self)@.tracks,
            final(self)@.current == wrap_next(old(self)@.current, old(self)@.tracks.len() as int),
    {
        let i = self.next_index();
        self.current = i;
    }

    /// Moves the cursor one track back, wrapping before the start.
    pub fn previous(&mut self)
        requires
            old(self).wf(),
            old(self)@.tracks.len() > 0,
        ensures
            final(self).wf(),
            final(self)@.tracks == old(self)@.tracks,
            final(self)@.current == wrap_previous(
                old(self)@.current,
                old(self)@.tracks.len() as int,
            ),
    {
        let i = self.previous_index();
        self.current = i;
    }
}

} // verus!
