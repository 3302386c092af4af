//! Resolving a list of track URIs through the cache: which ids must be
//! fetched, in which batches, and the resolved list once they arrive.

use crate::cache::CacheHandler;
use crate::ids::{track_kind, track_uri, web_uri_of};
use crate::track::{strings_view, track_view_of, TrackInfo, TrackRecord, TrackView};
use vstd::prelude::*;

verus! {

/// The web API's limit on track ids per lookup.
pub const TRACK_BATCH_SIZE: usize = 50;

/// What must be fetched to resolve a track list: its valid URIs in canonical
/// form, in order, and the batched lookups for those the cache lacks.
#[derive(Debug)]
pub struct TrackFetchPlan {
    pub uris: Vec<String>,
    pub batches: Vec<Vec<String>>,
}

/// The valid track URIs of `raw`, in canonical form, in order.
pub open spec fn canonical_track_uris(raw: Seq<Seq<char>>) -> Seq<Seq<char>>
    decreases raw.len(),
{
    if raw.len() == 0 {
        seq![]
    } else {
        let rest = canonical_track_uris(raw.drop_last());
        match web_uri_of(track_kind(), raw.last()) {
            Some(u) => rest.push(u),
            None => rest,
        }
    }
}

/// The ids of `us` that the table lacks, in order, repeats kept.
pub open spec fn uncached(m: Map<Seq<char>, TrackView>, us: Seq<Seq<char>>) -> Seq<Seq<char>>
    decreases us.len(),
{
    if us.len() == 0 {
        seq![]
    } else {
        let rest = uncached(m, us.drop_last());
        if m.contains_key(us.last()) {
            rest
        } else {
            rest.push(us.last())
        }
    }
}

/// `s` cut into consecutive batches of `n`, the last one possibly shorter.
pub open spec fn batches_of(s: Seq<Seq<char>>, n: int) -> Seq<Seq<Seq<char>>>
    decreases s.len(),
{
    if s.len() == 0 || n <= 0 {
        seq![]
    } else if s.len() <= n {
        seq![s]
    } else {
        seq![s.take(n)] + batches_of(s.skip(n), n)
    }
}

/// The table after storing each record that converts, in order.
pub open spec fn stored_all(m: Map<Seq<char>, TrackView>, rs: Seq<TrackRecord>) -> Map<
    Seq<char>,
    TrackView,
>
    decreases rs.len(),
{
    if rs.len() == 0 {
        m
    } else {
        let prev = stored_all(m, rs.drop_last());
        match track_view_of(rs.last()) {
            Some(t) => prev.insert(t.id, t),
            None => prev,
        }
    }
}

/// Whether some record converts to a track.
pub open spec fn any_converts(rs: Seq<TrackRecord>) -> bool {
    exists|i: int| 0 <= i < rs.len() && (#[trigger] track_view_of(rs[i])).is_some()
}

/// The entries of `us` that the table holds, in the order of `us`.
pub open spec fn resolved(m: Map<Seq<char>, TrackView>, us: Seq<Seq<char>>) -> Seq<TrackView>
    decreases us.len(),
{
    if us.len() == 0 {
        seq![]
    } else {
        let rest = resolved(m, us.drop_last());
        if m.contains_key(us.last()) {
            rest.push(m[us.last()])
        } else {
            rest
        }
    }
}

pub open spec fn batches_view(b: Seq<Vec<String>>) -> Seq<Seq<Seq<char>>> {
    b.map_values(|v: Vec<String>| strings_view(v@))
}

pub open spec fn track_views(s: Seq<TrackInfo>) -> Seq<TrackView> {
    s.map_values(|t: TrackInfo| t@)
}

proof fn lemma_push_view(s: Seq<String>, x: String)
    ensures
        strings_view(s.push(x)) == strings_view(s).push(x@),
{
    assert(strings_view(s.push(x)) =~= strings_view(s).push(x@));
}

proof fn lemma_stored_all_keeps_keys(m: Map<Seq<char>, TrackView>, rs: Seq<TrackRecord>, k: Seq<char>)
    requires
        m.contains_key(k),
    ensures
        stored_all(m, rs).contains_key(k),
    decreases rs.len(),
{
    if rs.len() > 0 {
        lemma_stored_all_keeps_keys(m, rs.drop_last(), k);
    }
}

proof fn lemma_uncached_prefix(m: Map<Seq<char>, TrackView>, us: Seq<Seq<char>>, k: Seq<char>)
    requires
        us.len() > 0,
        uncached(m, us.drop_last()).contains(k),
    ensures
        uncached(m, us).contains(k),
{
    let rest = uncached(m, us.drop_last());
    if !m.contains_key(us.last()) {
        let i = choose|i: int| 0 <= i < rest.len() && rest[i] == k;
        assert(rest.push(us.last())[i] == k);
    }
}

proof fn lemma_uncached_none_left(
    m: Map<Seq<char>, TrackView>,
    m2: Map<Seq<char>, TrackView>,
    us: Seq<Seq<char>>,
)
    requires
        forall|k: Seq<char>| m.contains_key(k) ==> #[trigger] m2.contains_key(k),
        forall|k: Seq<char>| #[trigger] uncached(m, us).contains(k) ==> m2.contains_key(k),
    ensures
        uncached(m2, us).len() == 0,
    decreases us.len(),
{
    if us.len() > 0 {
        assert forall|k: Seq<char>| #[trigger] uncached(m, us.drop_last()).contains(k) implies m2.contains_key(k) by {
            lemma_uncached_prefix(m, us, k);
        }
        lemma_uncached_none_left(m, m2, us.drop_last());
        if !m.contains_key(us.last()) {
            let r = uncached(m, us.drop_last()).push(us.last());
            assert(r[r.len() - 1] == us.last());
            assert(uncached(m, us).contains(us.last()));
        }
    }
}

/// Resolving the same list again after a fetch that brought back every id it
/// asked for needs no lookup at all.
pub proof fn lemma_refetch_is_free(
    m: Map<Seq<char>, TrackView>,
    raw: Seq<Seq<char>>,
    fetched: Seq<TrackRecord>,
)
    requires
        forall|k: Seq<char>| #[trigger] uncached(m, canonical_track_uris(raw)).contains(k)
            ==> stored_all(m, fetched).contains_key(k),
    ensures
        uncached(stored_all(m, fetched), canonical_track_uris(raw)).len() == 0,
        batches_of(
            uncached(stored_all(m, fetched), canonical_track_uris(raw)),
            TRACK_BATCH_SIZE as int,
        ).len() == 0,
{
    let m2 = stored_all(m, fetched);
    assert forall|k: Seq<char>| m.contains_key(k) implies #[trigger] m2.contains_key(k) by {
        lemma_stored_all_keeps_keys(m, fetched, k);
    }
    lemma_uncached_none_left(m, m2, canonical_track_uris(raw));
}

/// The valid track URIs of `uris`, canonical, in order.
pub fn canonical_uris(uris: &Vec<String>) -> (r: Vec<String>)
    ensures
        strings_view(r@) == canonical_track_uris(strings_view(uris@)),
{
    let mut r: Vec<String> = Vec::new();
    let mut i: usize = 0;
    while i < uris.len()
        invariant
            i <= uris@.len(),
            strings_view(r@) == canonical_track_uris(strings_view(uris@.take(i as int))),
        decreases uris@.len() - i,
    {
        let ghost before = r@;
        assert(strings_view(uris@.take(i + 1)).drop_last() == strings_view(uris@.take(i as int)));
        assert(strings_view(uris@.take(i + 1)).last() == uris@[i as int]@);
        match track_uri(uris[i].as_str()) {
            Some(u) => {
                r.push(u);
                proof {
                    lemma_push_view(before, u);
                }
            },
            None => {},
        }
        i = i + 1;
    }
    assert(uris@.take(uris@.len() as int) == uris@);
    r
}

/// The entries of `uris` that `cache` lacks, in order.
pub fn uncached_uris(cache: &CacheHandler, uris: &Vec<String>) -> (r: Vec<String>)
    requires
        cache.wf(),
    ensures
        strings_view(r@) == uncached(cache@.tracks, strings_view(uris@)),
{
    let mut r: Vec<String> = Vec::new();
    let mut i: usize = 0;
    while i < uris.len()
        invariant
            cache.wf(),
            i <= uris@.len(),
            strings_view(r@) == uncached(cache@.tracks, strings_view(uris@.take(i as int))),
        decreases uris@.len() - i,
    {
        let ghost before = r@;
        assert(strings_view(uris@.take(i + 1)).drop_last() == strings_view(uris@.take(i as int)));
        assert(strings_view(uris@.take(i + 1)).last() == uris@[i as int]@);
        if !cache.contains(uris[i].as_str()) {
            let u = uris[i].clone();
            r.push(u);
            proof {
                lemma_push_view(before, u);
            }
        }
        i = i + 1;
    }
    assert(uris@.take(uris@.len() as int) == uris@);
    r
}

/// `items` cut into consecutive batches of `TRACK_BATCH_SIZE`.
pub fn into_batches(items: &Vec<String>) -> (r: Vec<Vec<String>>)
    ensures
        batches_view(r@) == batches_of(strings_view(items@), TRACK_BATCH_SIZE as int),
{
    let n = TRACK_BATCH_SIZE;
    let mut r: Vec<Vec<String>> = Vec::new();
    let mut start: usize = 0;
    assert(strings_view(items@).skip(0) =~= strings_view(items@));
    assert(batches_view(r@) =~= Seq::<Seq<Seq<char>>>::empty());
    assert(batches_view(r@) + batches_of(strings_view(items@).skip(0), n as int) =~= batches_of(
        strings_view(items@),
        n as int,
    ));
    while start < items.len()
        invariant
            start <= items@.len(),
            batches_view(r@) + batches_of(strings_view(items@).skip(start as int), n as int)
                == batches_of(strings_view(items@), n as int),
            n == 50,
        decreases items@.len() - start,
    {
        let end: usize = if items.len() - start <= n {
            items.len()
        } else {
            start + n
        };
        let mut batch: Vec<String> = Vec::new();
        let mut k: usize = start;
        while k < end
            invariant
                start <= k <= end <= items@.len(),
                batch@ == items@.subrange(start as int, k as int),
            decreases end - k,
        {
            batch.push(items[k].clone());
            assert(items@.subrange(start as int, k + 1) == items@.subrange(
                start as int,
                k as int,
            ).push(items@[k as int]));
            k = k + 1;
        }
        let ghost rest = strings_view(items@).skip(start as int);
        let ghost before = r@;
        assert(strings_view(batch@) =~= rest.take((end - start) as int));
        r.push(batch);
        assert(batches_view(r@) == batches_view(before).push(strings_view(batch@))) by {
            assert(batches_view(r@) =~= batches_view(before).push(strings_view(batch@)));
        }
        if end == items.len() {
            assert(rest.take((end - start) as int) =~= rest);
            assert(strings_view(items@).skip(end as int) =~= Seq::<Seq<char>>::empty());
            assert(batches_of(rest, n as int) == seq![rest]);
        } else {
            assert(rest.skip(n as int) =~= strings_view(items@).skip(end as int));
            assert(batches_of(rest, n as int) == seq![rest.take(n as int)] + batches_of(
                rest.skip(n as int),
                n as int,
            ));
        }
        assert(batches_view(r@) + batches_of(strings_view(items@).skip(end as int), n as int)
            =~= batches_view(before) + batches_of(rest, n as int));
        start = end;
    }
    assert(strings_view(items@).skip(start as int) =~= Seq::<Seq<char>>::empty());
    assert(batches_view(r@) + batches_of(Seq::<Seq<char>>::empty(), n as int) =~= batches_view(
        r@,
    ));
    r
}

/// Stores every record that converts.
pub fn store_records(cache: &mut CacheHandler, fetched: Vec<TrackRecord>)
    requires
        old(cache).wf(),
    ensures
        final(cache).wf(),
        final(cache)@.tracks == stored_all(old(cache)@.tracks, fetched@),
        final(cache)@.dirty == (old(cache)@.dirty || any_converts(fetched@)),
{
    let mut rest = fetched;
    let ghost all = rest@;
    let ghost done: int = 0;
    while rest.len() > 0
        invariant
            cache.wf(),
            0 <= done <= all.len(),
            rest@ == all.skip(done),
            cache@.tracks == stored_all(old(cache)@.tracks, all.take(done)),
            cache@.dirty == (old(cache)@.dirty || any_converts(all.take(done))),
        decreases rest@.len(),
    {
        let rec = rest.remove(0);
        let ghost prev = cache@;
        let stored = cache.cache_track_info(rec);
        proof {
            assert(rec == all[done]);
            assert(all.take(done + 1).drop_last() == all.take(done));
            assert(all.take(done + 1).last() == rec);
            if stored.is_some() {
                assert(track_view_of(all.take(done + 1)[done])
                    .is_some());
            } else {
                if any_converts(all.take(done + 1)) {
                    let i = choose|i: int|
                        0 <= i < all.take(done + 1).len() && (#[trigger] track_view_of(
                            all.take(done + 1)[i],
                        )).is_some();
                    assert(all.take(done)[i] == all.take(done + 1)[i]);
                }
            }
            if any_converts(all.take(done)) {
                let i = choose|i: int|
                    0 <= i < all.take(done).len() && (#[trigger] track_view_of(
                        all.take(done)[i],
                    )).is_some();
                assert(all.take(done + 1)[i] == all.take(done)[i]);
            }
            done = done + 1;
            assert(rest@ =~= all.skip(done));
        }
    }
    assert(all.take(done) == all);
}

/// The cached entries of `uris`, in the order of `uris`.
pub fn resolve_uris(cache: &CacheHandler, uris: &Vec<String>) -> (r: Vec<TrackInfo>)
    requires
        cache.wf(),
    ensures
        track_views(r@) == resolved(cache@.tracks, strings_view(uris@)),
{
    let mut r: Vec<TrackInfo> = Vec::new();
    let mut i: usize = 0;
    while i < uris.len()
        invariant
            cache.wf(),
            i <= uris@.len(),
            track_views(r@) == resolved(cache@.tracks, strings_view(uris@.take(i as int))),
        decreases uris@.len() - i,
    {
        let ghost before = r@;
        assert(strings_view(uris@.take(i + 1)).drop_last() == strings_view(uris@.take(i as int)));
        assert(strings_view(uris@.take(i + 1)).last() == uris@[i as int]@);
        match cache.get_track_info(uris[i].as_str()) {
            Some(t) => {
                r.push(t);
                assert(track_views(r@) =~= track_views(before).push(t@));
            },
            None => {},
        }
        i = i + 1;
    }
    assert(uris@.take(uris@.len() as int) == uris@);
    r
}

} // verus!
