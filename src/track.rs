//! Track metadata as the cache and the queue hold it.

use vstd::prelude::*;

verus! {

/// Resolved metadata of one playable track.
#[derive(Debug, PartialEq, Eq)]
pub struct TrackInfo {
    pub id: String,
    pub name: String,
    pub duration_ms: u128,
    pub artists: Vec<String>,
    pub album_id: String,
    pub album_name: String,
    /// Artwork candidates: (pixel size, URL); size 0 when the catalog gave none.
    pub album_images: Vec<(u32, String)>,
}

/// A track as the web API returns it, in plain values: ids are URIs, and a
/// missing id or artwork size stays `None`.
#[derive(Debug, PartialEq, Eq)]
pub struct TrackRecord {
    pub id: Option<String>,
    pub name: String,
    pub duration_ms: u128,
    pub artists: Vec<String>,
    pub album_id: Option<String>,
    pub album_name: String,
    pub album_images: Vec<(Option<u32>, String)>,
}

/// The model of a `TrackInfo`: every text as its characters.
pub struct TrackView {
    pub id: Seq<char>,
    pub name: Seq<char>,
    pub duration_ms: u128,
    pub artists: Seq<Seq<char>>,
    pub album_id: Seq<char>,
    pub album_name: Seq<char>,
    pub album_images: Seq<(u32, Seq<char>)>,
}

pub open spec fn strings_view(v: Seq<String>) -> Seq<Seq<char>> {
    v.map_values(|s: String| s@)
}

pub open spec fn images_view(v: Seq<(u32, String)>) -> Seq<(u32, Seq<char>)> {
    v.map_values(|im: (u32, String)| (im.0, im.1@))
}

impl View for TrackInfo {
    type V = TrackView;

    open spec fn view(&self) -> TrackView {
        TrackView {
            id: self.id@,
            name: self.name@,
            duration_ms: self.duration_ms,
            artists: strings_view(self.artists@),
            album_id: self.album_id@,
            album_name: self.album_name@,
            album_images: images_view(self.album_images@),
        }
    }
}

pub open spec fn size_or_zero(size: Option<u32>) -> u32 {
    match size {
        Some(s) => s,
        None => 0,
    }
}

/// Artwork candidates with unknown sizes read as 0.
pub open spec fn sized_images(images: Seq<(Option<u32>, String)>) -> Seq<(u32, Seq<char>)> {
    images.map_values(|im: (Option<u32>, String)| (size_or_zero(im.0), im.1@))
}

/// What a record becomes: nothing without a track id or an album id.
pub open spec fn track_view_of(rec: TrackRecord) -> Option<TrackView> {
    match (rec.id, rec.album_id) {
        (Some(id), Some(album_id)) => Some(
            TrackView {
                id: id@,
                name: rec.name@,
                duration_ms: rec.duration_ms,
                artists: strings_view(rec.artists@),
                album_id: album_id@,
                album_name: rec.album_name@,
                album_images: sized_images(rec.album_images@),
            },
        ),
        _ => None,
    }
}

fn clone_strings(v: &Vec<String>) -> (r: Vec<String>)
    ensures
        r@ == v@,
{
    let mut r: Vec<String> = Vec::new();
    let mut i: usize = 0;
    while i < v.len()
        invariant
            i <= v@.len(),
            r@ == v@.take(i as int),
        decreases v@.len() - i,
    {
        r.push(v[i].clone());
        assert(v@.take(i + 1) == v@.take(i as int).push(v@[i as int]));
        i = i + 1;
    }
    assert(v@.take(v@.len() as int) == v@);
    r
}

fn clone_images(v: &Vec<(u32, String)>) -> (r: Vec<(u32, String)>)
    ensures
        r@ == v@,
{
    let mut r: Vec<(u32, String)> = Vec::new();
    let mut i: usize = 0;
    while i < v.len()
        invariant
            i <= v@.len(),
            r@ == v@.take(i as int),
        decreases v@.len() - i,
    {
        let (size, url) = &v[i];
        r.push((*size, url.clone()));
        assert(v@.take(i + 1) == v@.take(i as int).push(v@[i as int]));
        i = i + 1;
    }
    assert(v@.take(v@.len() as int) == v@);
    r
}

impl Clone for TrackInfo {
    fn clone(&self) -> (r: Self)
        ensures
            r@ == self@,
    {
        let r = TrackInfo {
            id: self.id.clone(),
            name: self.name.clone(),
            duration_ms: self.duration_ms,
            artists: clone_strings(&self.artists),
            album_id: self.album_id.clone(),
            album_name: self.album_name.clone(),
            album_images: clone_images(&self.album_images),
        };
        r
    }
}

impl TrackInfo {
    /// Converts a fetched record; `None` where the track or its album has no id.
    pub fn new(track: TrackRecord) -> (r: Option<TrackInfo>)
        ensures
            r.is_some() == track_view_of(track).is_some(),
            r matches Some(t) ==> track_view_of(track) == Some(t@),
    {
        let TrackRecord { id, name, duration_ms, artists, album_id, album_name, album_images } =
            track;
        let id = match id {
            Some(id) => id,
            None => return None,
        };
        let album_id = match album_id {
            Some(a) => a,
            None => return None,
        };
        let mut images: Vec<(u32, String)> = Vec::new();
        let mut i: usize = 0;
        while i < album_images.len()
            invariant
                i <= album_images@.len(),
                images_view(images@) == sized_images(album_images@.take(i as int)),
            decreases album_images@.len() - i,
        {
            let (size, url) = &album_images[i];
            let s: u32 = match size {
                Some(s) => *s,
                None => 0,
            };
            let ghost before = images@;
            assert(images_view(before).len() == before.len());
            assert(sized_images(album_images@.take(i as int)).len() == i);
            images.push((s, url.clone()));
            assert(s == size_or_zero(album_images@[i as int].0));
            assert(images@ == before.push((s, album_images@[i as int].1)));
            assert(album_images@.take(i + 1) == album_images@.take(i as int).push(
                album_images@[i as int],
            ));
            assert forall|k: int| 0 <= k < i + 1 implies #[trigger] images_view(images@)[k]
                == sized_images(album_images@.take(i + 1))[k] by {
                if k < i {
                    assert(images_view(before)[k] == sized_images(album_images@.take(i as int))[k]);
                }
            }
            assert(images_view(images@) =~= sized_images(album_images@.take(i + 1)));
            i = i + 1;
        }
        assert(album_images@.take(album_images@.len() as int) == album_images@);
        assert(images_view(images@) =~= sized_images(album_images@));
        Some(TrackInfo { id, name, duration_ms, artists, album_id, album_name, album_images: images })
    }
}

} // verus!
