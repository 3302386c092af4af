//! In-memory metadata cache: track id to `TrackInfo`, plus the choice and
//! naming of artwork files. Reading and writing the cache root is left to
//! the caller, which flushes after a batch of stores.

use crate::track::{TrackInfo, TrackRecord, TrackView, track_view_of};
use vstd::prelude::*;

verus! {

/// The artwork size the catalog offers for list and grid thumbnails.
pub const PREFERRED_COVER_SIZE: u32 = 300;

/// No two entries share an id.
pub open spec fn ids_unique(s: Seq<TrackInfo>) -> bool {
    forall|i: int, j: int|
        0 <= i < s.len() && 0 <= j < s.len() && i != j ==> #[trigger] s[i].id@ != #[trigger] s[j].id@
}

/// The table that a sequence of entries stands for, later entries winning.
pub open spec fn table_of(s: Seq<TrackInfo>) -> Map<Seq<char>, TrackView>
    decreases s.len(),
{
    if s.len() == 0 {
        Map::empty()
    } else {
        table_of(s.drop_last()).insert(s.last().id@, s.last()@)
    }
}

/// The cache's model: the table and whether it changed since the last flush.
pub struct CacheView {
    pub tracks: Map<Seq<char>, TrackView>,
    pub dirty: bool,
}

/// Storing a track and then looking up its id gives back an equal value; an
/// id that was never stored stays a miss.
pub proof fn lemma_cache_round_trip(m: Map<Seq<char>, TrackView>, t: TrackView, other: Seq<char>)
    ensures
        m.insert(t.id, t).contains_key(t.id),
        m.insert(t.id, t)[t.id] == t,
        !m.contains_key(other) && other != t.id ==> !m.insert(t.id, t).contains_key(other),
{
}

pub struct CacheHandler {
    cached_tracks: Vec<TrackInfo>,
    dirty: bool,
}

proof fn lemma_table_keys(s: Seq<TrackInfo>, k: Seq<char>)
    ensures
        table_of(s).contains_key(k) <==> exists|i: int| 0 <= i < s.len() && #[trigger] s[i].id@ == k,
    decreases s.len(),
{
    if s.len() > 0 {
        lemma_table_keys(s.drop_last(), k);
        if table_of(s.drop_last()).contains_key(k) {
            let i = choose|i: int| 0 <= i < s.drop_last().len() && #[trigger] s.drop_last()[i].id@ == k;
            assert(s[i].id@ == k);
        }
        if exists|i: int| 0 <= i < s.len() && #[trigger] s[i].id@ == k {
            let i = choose|i: int| 0 <= i < s.len() && #[trigger] s[i].id@ == k;
            if i < s.len() - 1 {
                assert(s.drop_last()[i].id@ == k);
            }
        }
    }
}

proof fn lemma_table_values(s: Seq<TrackInfo>, i: int)
    requires
        ids_unique(s),
        0 <= i < s.len(),
    ensures
        table_of(s).contains_key(s[i].id@),
        table_of(s)[s[i].id@] == s[i]@,
    decreases s.len(),
{
    lemma_table_keys(s, s[i].id@);
    if i < s.len() - 1 {
        assert(s.drop_last()[i] == s[i]);
        assert(ids_unique(s.drop_last())) by {
            assert forall|a: int, b: int|
                0 <= a < s.drop_last().len() && 0 <= b < s.drop_last().len() && a != b implies
                #[trigger] s.drop_last()[a].id@ != #[trigger] s.drop_last()[b].id@ by {
                assert(s.drop_last()[a] == s[a]);
                assert(s.drop_last()[b] == s[b]);
            }
        }
        lemma_table_values(s.drop_last(), i);
        assert(s[i].id@ != s.last().id@);
    }
}

/// Replacing the entry that holds an id updates the table at that id.
proof fn lemma_table_update(s: Seq<TrackInfo>, i: int, t: TrackInfo)
    requires
        ids_unique(s),
        0 <= i < s.len(),
        s[i].id@ == t.id@,
    ensures
        ids_unique(s.update(i, t)),
        table_of(s.update(i, t)) == table_of(s).insert(t.id@, t@),
{
    let s2 = s.update(i, t);
    assert(ids_unique(s2)) by {
        assert forall|a: int, b: int| 0 <= a < s2.len() && 0 <= b < s2.len() && a != b implies
            #[trigger] s2[a].id@ != #[trigger] s2[b].id@ by {
            assert(s2[a].id@ == s[a].id@);
            assert(s2[b].id@ == s[b].id@);
        }
    }
    assert forall|k: Seq<char>| #[trigger] table_of(s2).contains_key(k) == table_of(s).insert(
        t.id@,
        t@,
    ).contains_key(k) by {
        lemma_table_keys(s2, k);
        lemma_table_keys(s, k);
        if exists|j: int| 0 <= j < s.len() && #[trigger] s[j].id@ == k {
            let j = choose|j: int| 0 <= j < s.len() && #[trigger] s[j].id@ == k;
            assert(s2[j].id@ == k);
        }
        if exists|j: int| 0 <= j < s2.len() && #[trigger] s2[j].id@ == k {
            let j = choose|j: int| 0 <= j < s2.len() && #[trigger] s2[j].id@ == k;
            assert(s[j].id@ == k);
        }
    }
    assert forall|k: Seq<char>| #[trigger] table_of(s2).contains_key(k) implies table_of(s2)[k]
        == table_of(s).insert(t.id@, t@)[k] by {
        lemma_table_keys(s2, k);
        let j = choose|j: int| 0 <= j < s2.len() && #[trigger] s2[j].id@ == k;
        lemma_table_values(s2, j);
        if j != i {
            lemma_table_values(s, j);
            assert(s2[j] == s[j]);
        }
    }
    assert(table_of(s2) =~= table_of(s).insert(t.id@, t@));
}

impl View for CacheHandler {
    type V = CacheView;

    closed spec fn view(&self) -> CacheView {
        CacheView { tracks: table_of(self.cached_tracks@), dirty: self.dirty }
    }
}

impl CacheHandler {
    pub closed spec fn wf(&self) -> bool {
        ids_unique(self.cached_tracks@)
    }

    /// An empty cache with nothing to flush.
    pub fn new() -> (r: CacheHandler)
        ensures
            r.wf(),
            r@.tracks == Map::<Seq<char>, TrackView>::empty(),
            !r@.dirty,
    {
        CacheHandler { cached_tracks: Vec::new(), dirty: false }
    }

    /// The cached entry for `id`, if any; no network, no error.
    pub fn get_track_info(&self, id: &str) -> (r: Option<TrackInfo>)
        requires
            self.wf(),
        ensures
            r.is_some() == self@.tracks.contains_key(id@),
            r matches Some(t) ==> t@ == self@.tracks[id@],
    {
        let key = id.to_owned();
        let mut i: usize = 0;
        while i < self.cached_tracks.len()
            invariant
                self.wf(),
                key@ == id@,
                i <= self.cached_tracks@.len(),
                forall|j: int| 0 <= j < i ==> #[trigger] self.cached_tracks@[j].id@ != id@,
            decreases self.cached_tracks@.len() - i,
        {
            if self.cached_tracks[i].id == key {
                proof {
                    lemma_table_values(self.cached_tracks@, i as int);
                }
                return Some(self.cached_tracks[i].clone());
            }
            i = i + 1;
        }
        proof {
            lemma_table_keys(self.cached_tracks@, id@);
        }
        None
    }

    /// Whether an entry for `id` is cached.
    pub fn contains(&self, id: &str) -> (r: bool)
        requires
            self.wf(),
        ensures
            r == self@.tracks.contains_key(id@),
    {
        let key = id.to_owned();
        let mut i: usize = 0;
        while i < self.cached_tracks.len()
            invariant
                self.wf(),
                key@ == id@,
                i <= self.cached_tracks@.len(),
                forall|j: int| 0 <= j < i ==> #[trigger] self.cached_tracks@[j].id@ != id@,
            decreases self.cached_tracks@.len() - i,
        {
            if self.cached_tracks[i].id == key {
                proof {
                    lemma_table_keys(self.cached_tracks@, id@);
                }
                return true;
            }
            i = i + 1;
        }
        proof {
            lemma_table_keys(self.cached_tracks@, id@);
        }
        false
    }

    /// Inserts `track` under its id, replacing an earlier entry, and marks
    /// the table dirty.
    pub fn store(&mut self, track: TrackInfo)
        requires
            old(self).wf(),
        ensures
            final(self).wf(),
            final(self)@.tracks == old(self)@.tracks.insert(track.id@, track@),
            final(self)@.dirty,
    {
        self.dirty = true;
        let mut i: usize = 0;
        while i < self.cached_tracks.len()
            invariant
                ids_unique(self.cached_tracks@),
                self.dirty,
                self.cached_tracks@ == old(self).cached_tracks@,
                i <= self.cached_tracks@.len(),
                forall|j: int| 0 <= j < i ==> #[trigger] self.cached_tracks@[j].id@ != track.id@,
            decreases self.cached_tracks@.len() - i,
        {
            if self.cached_tracks[i].id == track.id {
                proof {
                    lemma_table_update(self.cached_tracks@, i as int, track);
                }
                self.cached_tracks.set(i, track);
                return;
            }
            i = i + 1;
        }
        let ghost before = self.cached_tracks@;
        self.cached_tracks.push(track);
        proof {
            assert(self.cached_tracks@.drop_last() == before);
            assert forall|a: int, b: int|
                0 <= a < self.cached_tracks@.len() && 0 <= b < self.cached_tracks@.len() && a != b
                implies #[trigger] self.cached_tracks@[a].id@ != #[trigger] self.cached_tracks@[b].id@ by {
                if a < before.len() && b < before.len() {
                    assert(self.cached_tracks@[a] == before[a]);
                    assert(self.cached_tracks@[b] == before[b]);
                } else if a < before.len() {
                    assert(self.cached_tracks@[a] == before[a]);
                } else if b < before.len() {
                    assert(self.cached_tracks@[b] == before[b]);
                }
            }
        }
    }

    /// Converts a fetched record and caches it; `None`, with nothing stored,
    /// where the record lacks an id.
    pub fn cache_track_info(&mut self, track: TrackRecord) -> (r: Option<TrackInfo>)
        requires
            old(self).wf(),
        ensures
            final(self).wf(),
            r.is_some() == track_view_of(track).is_some(),
            r matches Some(t) ==> {
                &&& track_view_of(track) == Some(t@)
                &&& final(self)@.tracks == old(self)@.tracks.insert(t.id@, t@)
                &&& final(self)@.dirty
            },
            r.is_none() ==> final(self)@ == old(self)@,
    {
        match TrackInfo::new(track) {
            Some(t) => {
                let kept = t.clone();
                self.store(t);
                Some(kept)
            },
            None => None,
        }
    }

    /// Whether stores happened since the last flush.
    pub fn is_dirty(&self) -> (r: bool)
        ensures
            r == self@.dirty,
    {
        self.dirty
    }

    /// Records that the table was written out.
    pub fn mark_saved(&mut self)
        ensures
            final(self).wf() == old(self).wf(),
            final(self)@.tracks == old(self)@.tracks,
            !final(self)@.dirty,
    {
        self.dirty = false;
    }

    /// The cached entries, for writing the table out.
    pub fn entries(&self) -> (r: &Vec<TrackInfo>)
        requires
            self.wf(),
        ensures
            ids_unique(r@),
            table_of(r@) == self@.tracks,
    {
        &self.cached_tracks
    }
}

/// Whether an artwork candidate of this declared size is worth fetching:
/// its size is unknown (0) or the preferred one.
pub open spec fn cover_candidate(size: u32, preferred: u32) -> bool {
    size == 0 || size == preferred
}

/// The first artwork candidate worth fetching, if any.
pub fn select_cover_image(images: &Vec<(u32, String)>, preferred: u32) -> (r: Option<usize>)
    ensures
        r matches Some(i) ==> i < images@.len() && cover_candidate(images@[i as int].0, preferred)
            && forall|j: int| 0 <= j < i ==> !cover_candidate(#[trigger] images@[j].0, preferred),
        r.is_none() ==> forall|j: int|
            0 <= j < images@.len() ==> !cover_candidate(#[trigger] images@[j].0, preferred),
{
    let mut i: usize = 0;
    while i < images.len()
        invariant
            i <= images@.len(),
            forall|j: int| 0 <= j < i ==> !cover_candidate(#[trigger] images@[j].0, preferred),
        decreases images@.len() - i,
    {
        let size = images[i].0;
        if size == 0 || size == preferred {
            return Some(i);
        }
        i = i + 1;
    }
    None
}

pub open spec fn cover_prefix() -> Seq<char> {
    seq!['c', 'o', 'v', 'e', 'r', '-']
}

/// Name of the artwork file of `id` under the cache root.
pub fn cover_file_name(id: &str) -> (r: String)
    ensures
        r@ == cover_prefix() + id@,
{
    let mut name = String::from_str("cover-");
    proof {
        reveal_strlit("cover-");
    }
    assert(name@ =~= cover_prefix());
    name.append(id);
    name
}

} // verus!
