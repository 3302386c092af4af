//! Random permutations drawn with nanorand's `WyRand`.

use nanorand::Rng;
use nanorand::WyRand;
use vstd::multiset::Multiset;
use vstd::prelude::*;

verus! {

#[verifier::external_type_specification]
#[verifier::external_body]
pub struct ExWyRand(WyRand);

/// Relies on nanorand's `Rng::generate_range` for `usize`: on a non-empty
/// range `0..bound` it draws `x` (drawing again while the low half of
/// `bound * x` falls in the rejected zone) and returns `(bound * x) >> 64`,
/// which lies in the range.
#[verifier::external_body]
fn draw_below(rng: &mut WyRand, bound: usize) -> (r: usize)
    requires
        0 < bound,
    ensures
        r < bound,
{
    rng.generate_range(0..bound)
}

/// Removing the element at `i` the way `swap_remove` does takes it out of
/// the multiset.
proof fn lemma_swap_remove_multiset<T>(s: Seq<T>, i: int)
    requires
        0 <= i < s.len(),
    ensures
        s.update(i, s.last()).drop_last().to_multiset() == s.to_multiset().remove(s[i]),
{
    broadcast use vstd::seq_lib::group_to_multiset_ensures;
    broadcast use vstd::multiset::group_multiset_properties;

    let t = s.update(i, s.last());
    let d = t.drop_last();
    assert(d.push(t.last()) == t);
    assert(t.last() == s.last());
    vstd::seq_lib::to_multiset_build(d, s.last());
    vstd::seq_lib::to_multiset_update(s, i, s.last());
    vstd::seq_lib::to_multiset_contains(s, s[i]);
    let m = s.to_multiset();
    assert(m.count(s[i]) > 0);
    assert(d.to_multiset().insert(s.last()) == m.insert(s.last()).remove(s[i]));
    assert forall|v: T| #[trigger] d.to_multiset().count(v) == m.remove(s[i]).count(v) by {
        assert(d.to_multiset().insert(s.last()).count(v) == m.insert(s.last()).remove(s[i]).count(v));
    }
    assert(d.to_multiset() =~= m.remove(s[i]));
}

/// Whether each pick indexes into what is left at its step: the pick at
/// step `i` is below `n - i`.
pub open spec fn picks_in_range(picks: Seq<usize>, n: int) -> bool {
    picks.len() == n && forall|i: int| 0 <= i < picks.len() ==> #[trigger] picks[i] < n - i
}

/// The order that a sequence of picks makes: each pick takes the item at
/// that position out of what is left, as `swap_remove` does (the last item
/// moves into its place), and appends it.
pub open spec fn arranged<T>(items: Seq<T>, picks: Seq<usize>) -> Seq<T>
    decreases picks.len(),
{
    if picks.len() == 0 || items.len() == 0 {
        seq![]
    } else {
        let j = picks[0] as int;
        seq![items[j]] + arranged(items.update(j, items.last()).drop_last(), picks.drop_first())
    }
}

/// Arranging by in-range picks reorders the items and keeps every one.
pub proof fn lemma_arranged_is_permutation<T>(items: Seq<T>, picks: Seq<usize>)
    requires
        picks_in_range(picks, items.len() as int),
    ensures
        arranged(items, picks).len() == items.len(),
        arranged(items, picks).to_multiset() == items.to_multiset(),
    decreases picks.len(),
{
    broadcast use vstd::seq_lib::group_to_multiset_ensures;
    broadcast use vstd::multiset::group_multiset_properties;

    if items.len() == 0 {
        assert(items.to_multiset() =~= Multiset::empty());
        assert(arranged(items, picks) =~= Seq::<T>::empty());
    } else {
        let j = picks[0] as int;
        let rest = items.update(j, items.last()).drop_last();
        let tail = picks.drop_first();
        assert forall|i: int| 0 <= i < tail.len() implies #[trigger] tail[i] < rest.len() - i by {
            assert(tail[i] == picks[i + 1]);
        }
        lemma_arranged_is_permutation(rest, tail);
        lemma_swap_remove_multiset(items, j);
        let r = arranged(rest, tail);
        assert(arranged(items, picks) == seq![items[j]] + r);
        vstd::seq_lib::lemma_multiset_commutative(seq![items[j]], r);
        assert(seq![items[j]].to_multiset() =~= Multiset::empty().insert(items[j])) by {
            vstd::seq_lib::to_multiset_build(Seq::<T>::empty(), items[j]);
            assert(Seq::<T>::empty().push(items[j]) == seq![items[j]]);
            assert(Seq::<T>::empty().to_multiset() =~= Multiset::empty());
        }
        vstd::seq_lib::to_multiset_contains(items, items[j]);
        assert(items.contains(items[j]));
        assert(arranged(items, picks).to_multiset() =~= items.to_multiset());
    }
}

/// Orders `items` by the given picks: step `i` takes the item at `picks[i]`
/// out of those not yet placed.
pub fn arrange<T>(items: Vec<T>, picks: &Vec<usize>) -> (r: Vec<T>)
    requires
        picks_in_range(picks@, items@.len() as int),
    ensures
        r@ == arranged(items@, picks@),
{
    let n = items.len();
    let mut pool = items;
    let mut out: Vec<T> = Vec::new();
    let mut k: usize = 0;
    assert(picks@.skip(0) == picks@);
    while k < n
        invariant
            n == items@.len(),
            picks_in_range(picks@, n as int),
            k <= n,
            pool@.len() == n - k,
            out@ + arranged(pool@, picks@.skip(k as int)) == arranged(items@, picks@),
        decreases n - k,
    {
        let j = picks[k];
        assert(picks@[k as int] < n - k);
        let ghost before = pool@;
        let ghost out_before = out@;
        let ghost rest_picks = picks@.skip(k as int);
        assert(rest_picks[0] == j);
        assert(rest_picks.drop_first() == picks@.skip(k + 1));
        let x = pool.swap_remove(j);
        out.push(x);
        assert(arranged(before, rest_picks) == seq![x] + arranged(pool@, picks@.skip(k + 1)));
        assert(out@ + arranged(pool@, picks@.skip(k + 1)) =~= out_before + arranged(
            before,
            rest_picks,
        ));
        k = k + 1;
    }
    assert(arranged(pool@, picks@.skip(n as int)) =~= Seq::<T>::empty());
    assert(out@ =~= out@ + arranged(pool@, picks@.skip(n as int)));
    out
}

/// A uniformly drawn permutation of `items`: each position is filled by a
/// draw from the items not yet placed. (nanorand's own `shuffle` swaps each
/// slot with one drawn from the whole slice, which favours some orders.)
pub fn shuffle<T>(rng: &mut WyRand, items: Vec<T>) -> (r: Vec<T>)
    ensures
        exists|picks: Seq<usize>|
            picks_in_range(picks, items@.len() as int) && r@ == #[trigger] arranged(items@, picks),
        r@.to_multiset() == items@.to_multiset(),
        r@.len() == items@.len(),
{
    let n = items.len();
    let mut picks: Vec<usize> = Vec::new();
    let mut k: usize = 0;
    while k < n
        invariant
            k <= n,
            picks@.len() == k,
            forall|i: int| 0 <= i < k ==> #[trigger] picks@[i] < n - i,
        decreases n - k,
    {
        let j = draw_below(rng, n - k);
        picks.push(j);
        k = k + 1;
    }
    let r = arrange(items, &picks);
    proof {
        lemma_arranged_is_permutation(items@, picks@);
    }
    r
}

} // verus!
