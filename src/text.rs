//! Text shown for tracks.

use vstd::prelude::*;

verus! {

pub open spec fn separator() -> Seq<char> {
    seq![',', ' ']
}

/// The names joined with `", "`.
pub open spec fn joined(names: Seq<Seq<char>>) -> Seq<char>
    decreases names.len(),
{
    if names.len() == 0 {
        seq![]
    } else if names.len() == 1 {
        names[0]
    } else {
        joined(names.drop_last()) + separator() + names.last()
    }
}

/// The artists of a track as one line: the names joined with `", "`.
pub fn make_artists_string(artists: &[String]) -> (r: String)
    ensures
        r@ == joined(artists@.map_values(|s: String| s@)),
{
    let ghost names = artists@.map_values(|s: String| s@);
    let mut result = String::new();
    let n = artists.len();
    let mut i: usize = 0;
    while i < n
        invariant
            n == artists@.len(),
            names == artists@.map_values(|s: String| s@),
            i <= n,
            i == 0 ==> result@ == Seq::<char>::empty(),
            0 < i < n ==> result@ == joined(names.take(i as int)) + separator(),
            0 < i && i == n ==> result@ == joined(names.take(i as int)),
        decreases n - i,
    {
        let ghost before = result@;
        result.append(artists[i].as_str());
        assert(names.take(i + 1).drop_last() == names.take(i as int));
        assert(names.take(i + 1).last() == artists@[i as int]@);
        if i == 0 {
            assert(result@ == artists@[0]@);
            assert(joined(names.take(1)) == names.take(1)[0]);
        } else {
            assert(result@ =~= joined(names.take(i as int)) + separator() + names.take(i + 1).last());
            assert(joined(names.take(i + 1)) == joined(names.take(i + 1).drop_last()) + separator()
                + names.take(i + 1).last());
        }
        assert(result@ == joined(names.take(i + 1)));
        if i != n - 1 {
            let ghost mid = result@;
            result.append(", ");
            proof {
                reveal_strlit(", ");
            }
            assert(result@ =~= mid + separator());
        }
        i = i + 1;
    }
    assert(names.take(n as int) == names);
    result
}

/// The first `n` characters of `s` followed by `"..."`.
pub open spec fn trimmed(s: Seq<char>, n: int) -> Seq<char> {
    s.take(n) + seq!['.', '.', '.']
}

/// Shortens `text` to fit `max_chars` characters: where it has at least that
/// many, it keeps the first `max_chars - 3` and appends `"..."`. Returns
/// whether it did.
pub fn trim_string(max_chars: usize, text: &mut String) -> (r: bool)
    requires
        old(text)@.len() >= max_chars ==> max_chars >= 3,
    ensures
        r == (old(text)@.len() >= max_chars),
        r ==> final(text)@ == trimmed(old(text)@, max_chars - 3),
        !r ==> final(text)@ == old(text)@,
{
    let count = text.as_str().unicode_len();
    let should_trim = count >= max_chars;
    if should_trim {
        let kept = text.as_str().substring_char(0, max_chars - 3);
        let mut t = String::from_str(kept);
        proof {
            reveal_strlit("...");
        }
        t.append("...");
        assert(t@ =~= trimmed(old(text)@, max_chars - 3));
        *text = t;
    }
    should_trim
}

} // verus!
