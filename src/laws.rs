//! What a sync guarantees for each message, proved over the plan that the
//! patch builder follows.

use vstd::prelude::*;
use crate::flag::Flags;
use crate::folder::folder_state;
use crate::hunk::{live_before_cache, Effect, KeyState, Side};
use crate::envelope::Envelope;
use crate::patch::{
    cache_step, clear_step, live_step, lookup, one_sided_plan, patch_effects, plan, HunkGroup, World,
};

verus! {

proof fn lemma_apply_concat(s: KeyState, a: Seq<Effect>, b: Seq<Effect>)
    ensures
        s.apply_all(a + b) == s.apply_all(a).apply_all(b),
    decreases b.len(),
{
    if b.len() == 0 {
        assert(a + b =~= a);
    } else {
        assert((a + b).drop_last() =~= a + b.drop_last());
        assert((a + b).last() == b.last());
        lemma_apply_concat(s, a, b.drop_last());
    }
}

proof fn lemma_apply_single(s: KeyState, e: Effect)
    ensures
        s.apply_all(seq![e]) == s.apply(e),
{
    assert(seq![e].drop_last() =~= Seq::<Effect>::empty());
    assert(s.apply_all(Seq::<Effect>::empty()) == s);
    assert(seq![e].last() == e);
}

proof fn lemma_live_step(s: KeyState, side: Side, f: Flags, u: Flags)
    requires
        s.live(side) == Some(f),
    ensures
        s.apply_all(live_step(side, f, u)) == s.with_live(side, Some(u)),
{
    if f == u {
        assert(s.with_live(side, Some(u)) == s);
    } else {
        lemma_apply_single(s, Effect::SetLive(side, u));
    }
}

proof fn lemma_cache_step(s: KeyState, side: Side, u: Flags)
    ensures
        s.apply_all(cache_step(side, s.cached(side), u)) == s.with_cached(side, Some(u)),
{
    if s.cached(side) == Some(u) {
        assert(s.with_cached(side, Some(u)) == s);
    } else {
        lemma_apply_single(s, Effect::SetCache(side, u));
    }
}

proof fn lemma_clear_step(s: KeyState, side: Side)
    ensures
        s.apply_all(clear_step(side, s.cached(side))) == s.with_cached(side, None),
{
    if s.cached(side) is Some {
        lemma_apply_single(s, Effect::ClearCache(side));
    } else {
        assert(s.with_cached(side, None) == s);
    }
}

/// Convergence: once the plan of a message has been applied in full, its
/// two live states and its two cached states are all equal. Where it is
/// live on both sides, they all hold the union of the two live flag sets;
/// where it is live on one side and both caches know it, it is gone from
/// all four; where it is live on one side and a cache does not know it,
/// all four hold the flags of that live side.
pub proof fn lemma_plan_converges(s: KeyState)
    ensures
        s.apply_all(plan(s)).converged(),
        s.left is Some && s.right is Some ==> s.apply_all(plan(s)).left == Some(
            s.left->0.spec_union(s.right->0),
        ),
        s.left is Some && s.right is None && !(s.left_cached is Some && s.right_cached is Some)
            ==> s.apply_all(plan(s)).right == s.left,
        s.right is Some && s.left is None && !(s.left_cached is Some && s.right_cached is Some)
            ==> s.apply_all(plan(s)).left == s.right,
        (s.left is None || s.right is None) && s.left_cached is Some && s.right_cached is Some
            ==> s.apply_all(plan(s)).left is None,
        s.left is None && s.right is None ==> s.apply_all(plan(s)).left is None,
{
    match (s.left, s.right) {
        (Some(l), Some(r)) => {
            let u = l.spec_union(r);
            let a = live_step(Side::Left, l, u);
            let b = live_step(Side::Right, r, u);
            let c = cache_step(Side::Left, s.left_cached, u);
            let d = cache_step(Side::Right, s.right_cached, u);
            lemma_apply_concat(s, a + b + c, d);
            lemma_apply_concat(s, a + b, c);
            lemma_apply_concat(s, a, b);
            lemma_live_step(s, Side::Left, l, u);
            let s1 = s.with_live(Side::Left, Some(u));
            lemma_live_step(s1, Side::Right, r, u);
            let s2 = s1.with_live(Side::Right, Some(u));
            lemma_cache_step(s2, Side::Left, u);
            let s3 = s2.with_cached(Side::Left, Some(u));
            lemma_cache_step(s3, Side::Right, u);
        },
        (Some(l), None) => {
            lemma_one_sided(s, Side::Left, l);
        },
        (None, Some(r)) => {
            lemma_one_sided(s, Side::Right, r);
        },
        (None, None) => {
            let a = clear_step(Side::Left, s.left_cached);
            let b = clear_step(Side::Right, s.right_cached);
            lemma_apply_concat(s, a, b);
            lemma_clear_step(s, Side::Left);
            lemma_clear_step(s.with_cached(Side::Left, None), Side::Right);
        },
    }
}

proof fn lemma_one_sided(s: KeyState, side: Side, f: Flags)
    requires
        s.live(side) == Some(f),
        s.live(side.spec_other()) is None,
    ensures
        s.apply_all(one_sided_plan(s, side, f)).converged(),
        s.cached(side) is Some && s.cached(side.spec_other()) is Some ==> s.apply_all(
            one_sided_plan(s, side, f),
        ).left is None,
        !(s.cached(side) is Some && s.cached(side.spec_other()) is Some) ==> s.apply_all(
            one_sided_plan(s, side, f),
        ).left == Some(f),
{
    let other = side.spec_other();
    if s.cached(side) is Some && s.cached(other) is Some {
        let es = seq![Effect::ClearLive(side), Effect::ClearCache(side), Effect::ClearCache(other)];
        assert(es =~= seq![Effect::ClearLive(side)] + seq![Effect::ClearCache(side)] + seq![
            Effect::ClearCache(other),
        ]);
        lemma_apply_concat(s, seq![Effect::ClearLive(side)] + seq![Effect::ClearCache(side)], seq![Effect::ClearCache(other)]);
        lemma_apply_concat(s, seq![Effect::ClearLive(side)], seq![Effect::ClearCache(side)]);
        lemma_apply_single(s, Effect::ClearLive(side));
        let s1 = s.apply(Effect::ClearLive(side));
        lemma_apply_single(s1, Effect::ClearCache(side));
        let s2 = s1.apply(Effect::ClearCache(side));
        lemma_apply_single(s2, Effect::ClearCache(other));
    } else {
        let a = seq![Effect::SetLive(other, f)];
        let b = cache_step(side, s.cached(side), f);
        let c = cache_step(other, s.cached(other), f);
        lemma_apply_concat(s, a + b, c);
        lemma_apply_concat(s, a, b);
        lemma_apply_single(s, Effect::SetLive(other, f));
        let s1 = s.apply(Effect::SetLive(other, f));
        lemma_cache_step(s1, side, f);
        let s2 = s1.with_cached(side, Some(f));
        lemma_cache_step(s2, other, f);
    }
}

/// A message whose four views already agree gets no hunk.
pub proof fn lemma_converged_plan_is_empty(s: KeyState)
    requires
        s.converged(),
    ensures
        plan(s).len() == 0,
{
    match (s.left, s.right) {
        (Some(l), Some(r)) => {
            assert(l.spec_union(r) == l);
        },
        _ => {},
    }
}

/// Idempotence: planning again after a plan was applied in full, with no
/// change in between, yields no hunk.
pub proof fn lemma_plan_idempotent(s: KeyState)
    ensures
        plan(s.apply_all(plan(s))).len() == 0,
{
    lemma_plan_converges(s);
    lemma_converged_plan_is_empty(s.apply_all(plan(s)));
}

/// Flag union: flags set independently on the two sides are all kept, on
/// both sides and in both caches.
pub proof fn lemma_flag_union(s: KeyState, l: Flags, r: Flags)
    requires
        s.left == Some(l),
        s.right == Some(r),
    ensures
        s.apply_all(plan(s)).left is Some,
        s.apply_all(plan(s)).left->0@ == l@.union(r@),
        s.apply_all(plan(s)).converged(),
{
    lemma_plan_converges(s);
    Flags::lemma_union_view(l, r);
}

/// Deletion propagation: a message known to both caches and gone from one
/// live store is removed from the other live store and from both caches.
pub proof fn lemma_deletion_propagates(s: KeyState, side: Side)
    requires
        s.left_cached is Some,
        s.right_cached is Some,
        s.live(side) is None,
    ensures
        s.apply_all(plan(s)) == (KeyState { left_cached: None, left: None, right_cached: None, right: None }),
{
    lemma_plan_converges(s);
}

/// Creation propagation: a message live on one side only, and known to
/// neither cache, is copied to the other side and cached on both.
pub proof fn lemma_creation_propagates(s: KeyState, side: Side, f: Flags)
    requires
        s.live(side) == Some(f),
        s.live(side.spec_other()) is None,
        s.left_cached is None,
        s.right_cached is None,
    ensures
        s.apply_all(plan(s)) == (KeyState {
            left_cached: Some(f),
            left: Some(f),
            right_cached: Some(f),
            right: Some(f),
        }),
{
    lemma_plan_converges(s);
}

/// Every live effect of a plan comes before its cache effects, so a cache
/// only records what a live store has confirmed.
pub proof fn lemma_plan_orders_live_first(s: KeyState)
    ensures
        live_before_cache(plan(s)),
{
    let p = plan(s);
    assert forall|i: int, j: int| 0 <= i < j < p.len() && (#[trigger] p[i]).is_cache() implies (
    #[trigger] p[j]).is_cache() by {
        match (s.left, s.right) {
            (Some(l), Some(r)) => {
                let u = l.spec_union(r);
                let a = live_step(Side::Left, l, u);
                let b = live_step(Side::Right, r, u);
                let c = cache_step(Side::Left, s.left_cached, u);
                let d = cache_step(Side::Right, s.right_cached, u);
                assert(p == a + b + c + d);
                if i < a.len() + b.len() {
                    assert((a + b + c + d)[i] == (a + b)[i]);
                    if i < a.len() {
                        assert((a + b)[i] == a[i]);
                    } else {
                        assert((a + b)[i] == b[i - a.len()]);
                    }
                }
                if j >= a.len() + b.len() {
                    if j < a.len() + b.len() + c.len() {
                        assert((a + b + c + d)[j] == c[j - a.len() - b.len()]);
                    } else {
                        assert((a + b + c + d)[j] == d[j - a.len() - b.len() - c.len()]);
                    }
                } else {
                    assert((a + b + c + d)[j] == (a + b)[j]);
                    if j < a.len() {
                        assert((a + b)[j] == a[j]);
                    } else {
                        assert((a + b)[j] == b[j - a.len()]);
                    }
                }
            },
            (Some(l), None) => {
                lemma_one_sided_order(s, Side::Left, l, i, j);
            },
            (None, Some(r)) => {
                lemma_one_sided_order(s, Side::Right, r, i, j);
            },
            (None, None) => {
                let a = clear_step(Side::Left, s.left_cached);
                let b = clear_step(Side::Right, s.right_cached);
                if j < a.len() {
                    assert((a + b)[j] == a[j]);
                } else {
                    assert((a + b)[j] == b[j - a.len()]);
                }
            },
        }
    }
}

proof fn lemma_one_sided_order(s: KeyState, side: Side, f: Flags, i: int, j: int)
    requires
        0 <= i < j < one_sided_plan(s, side, f).len(),
        one_sided_plan(s, side, f)[i].is_cache(),
    ensures
        one_sided_plan(s, side, f)[j].is_cache(),
{
    let other = side.spec_other();
    if !(s.cached(side) is Some && s.cached(other) is Some) {
        let a = seq![Effect::SetLive(other, f)];
        let b = cache_step(side, s.cached(side), f);
        let c = cache_step(other, s.cached(other), f);
        if j < a.len() + b.len() {
            assert((a + b + c)[j] == (a + b)[j]);
            assert((a + b)[j] == b[j - 1]);
        } else {
            assert((a + b + c)[j] == c[j - a.len() - b.len()]);
        }
    }
}

/// A message whose plan is empty is already synchronized: the plan is
/// empty exactly on converged messages.
pub proof fn lemma_empty_plan_converged(s: KeyState)
    requires
        plan(s).len() == 0,
    ensures
        s.converged(),
{
    match (s.left, s.right) {
        (Some(l), Some(r)) => {
            let u = l.spec_union(r);
            let a = live_step(Side::Left, l, u);
            let b = live_step(Side::Right, r, u);
            let c = cache_step(Side::Left, s.left_cached, u);
            let d = cache_step(Side::Right, s.right_cached, u);
            assert((a + b + c + d).len() == a.len() + b.len() + c.len() + d.len());
        },
        (Some(l), None) => {
            assert(one_sided_plan(s, Side::Left, l).len() > 0);
        },
        (None, Some(r)) => {
            assert(one_sided_plan(s, Side::Right, r).len() > 0);
        },
        (None, None) => {
            let a = clear_step(Side::Left, s.left_cached);
            let b = clear_step(Side::Right, s.right_cached);
            assert((a + b).len() == a.len() + b.len());
        },
    }
}

proof fn lemma_from_states(f: spec_fn(Seq<char>) -> KeyState, k: Seq<char>)
    ensures
        World::from_states(f).state(k) == f(k),
{
}

proof fn lemma_world_converged(w: World)
    requires
        forall|k: Seq<char>| (#[trigger] w.state(k)).converged(),
    ensures
        w.converged(),
{
    assert forall|k: Seq<char>| #[trigger] w.left.dom().contains(k) == w.right.dom().contains(k) by {
        assert(w.state(k).converged());
        assert(lookup(w.left, k) == lookup(w.right, k));
    }
    assert forall|k: Seq<char>| #[trigger] w.left_cached.dom().contains(k) == w.left.dom().contains(k) by {
        assert(w.state(k).converged());
        assert(lookup(w.left_cached, k) == lookup(w.left, k));
    }
    assert forall|k: Seq<char>| #[trigger] w.right_cached.dom().contains(k) == w.right.dom().contains(k) by {
        assert(w.state(k).converged());
        assert(lookup(w.right_cached, k) == lookup(w.right, k));
    }
    assert(w.left.dom() =~= w.right.dom());
    assert(w.left_cached.dom() =~= w.left.dom());
    assert(w.right_cached.dom() =~= w.right.dom());
    assert forall|k: Seq<char>| #[trigger] w.left.dom().contains(k) implies w.left[k] == w.right[k] by {
        assert(w.state(k).converged());
        assert(lookup(w.left, k) == lookup(w.right, k));
    }
    assert forall|k: Seq<char>| #[trigger] w.left.dom().contains(k) implies w.left_cached[k] == w.left[k] by {
        assert(w.state(k).converged());
        assert(lookup(w.left_cached, k) == lookup(w.left, k));
    }
    assert forall|k: Seq<char>| #[trigger] w.right.dom().contains(k) implies w.right_cached[k] == w.right[k] by {
        assert(w.state(k).converged());
        assert(lookup(w.right_cached, k) == lookup(w.right, k));
    }
    assert(w.left =~= w.right);
    assert(w.left_cached =~= w.left);
    assert(w.right_cached =~= w.right);
}

/// Convergence of a folder: once the patch of a folder has been applied in
/// full, its two live views are equal and each equals its cache.
pub proof fn lemma_sync_converges(w: World)
    ensures
        w.apply_patch(w.plan_map()).converged(),
{
    let w2 = w.apply_patch(w.plan_map());
    assert forall|k: Seq<char>| (#[trigger] w2.state(k)).converged() by {
        lemma_plan_converges(w.state(k));
        if plan(w.state(k)).len() == 0 {
            lemma_empty_plan_converged(w.state(k));
        }
    }
    lemma_world_converged(w2);
}

/// Idempotence of a folder sync: after a sync applied in full, with no
/// change in between, the next sync of the folder has an empty patch.
pub proof fn lemma_sync_idempotent(w: World)
    ensures
        w.apply_patch(w.plan_map()).plan_map() == Map::<Seq<char>, Seq<Effect>>::empty(),
{
    let w2 = w.apply_patch(w.plan_map());
    assert forall|k: Seq<char>| !w2.plan_map().contains_key(k) by {
        lemma_plan_converges(w.state(k));
        if plan(w.state(k)).len() == 0 {
            lemma_empty_plan_converged(w.state(k));
        }
        lemma_converged_plan_is_empty(w2.state(k));
    }
    assert(w2.plan_map() =~= Map::<Seq<char>, Seq<Effect>>::empty());
}

/// Failure isolation: whatever became of the hunks of message `failed`,
/// every other message of the folder is synchronized once its own group
/// has been applied in full.
pub proof fn lemma_failure_isolated(w: World, applied: Map<Seq<char>, Seq<Effect>>, failed: Seq<char>)
    requires
        forall|k: Seq<char>|
            k != failed ==> (#[trigger] applied.contains_key(k)) == w.plan_map().contains_key(k),
        forall|k: Seq<char>|
            k != failed && #[trigger] applied.contains_key(k) ==> applied[k] == w.plan_map()[k],
    ensures
        forall|k: Seq<char>| k != failed ==> (#[trigger] w.apply_patch(applied).state(k)).converged(),
{
    assert forall|k: Seq<char>| k != failed implies (#[trigger] w.apply_patch(applied).state(k)).converged() by {
        lemma_plan_converges(w.state(k));
        if plan(w.state(k)).len() == 0 {
            lemma_empty_plan_converged(w.state(k));
        }
        assert(applied.contains_key(k) == w.plan_map().contains_key(k));
    }
}

/// A folder sync converges too: once the plan of a folder name has been
/// applied in full, the folder exists on both sides and in both caches, or
/// in none of them; and planning again yields nothing.
pub proof fn lemma_folder_sync_converges(left_cached: bool, left: bool, right_cached: bool, right: bool)
    ensures
        folder_state(left_cached, left, right_cached, right).apply_all(
            plan(folder_state(left_cached, left, right_cached, right)),
        ).converged(),
        plan(
            folder_state(left_cached, left, right_cached, right).apply_all(
                plan(folder_state(left_cached, left, right_cached, right)),
            ),
        ).len() == 0,
{
    lemma_plan_converges(folder_state(left_cached, left, right_cached, right));
    lemma_plan_idempotent(folder_state(left_cached, left, right_cached, right));
}

/// Idempotence, on listings: a patch built from listings that already
/// agree (the two live views equal, each equal to its cache, as message id
/// to flags maps) has no group.
pub proof fn lemma_converged_listings_give_empty_patch(
    left_cached: Seq<Envelope>,
    left: Seq<Envelope>,
    right_cached: Seq<Envelope>,
    right: Seq<Envelope>,
    p: Seq<HunkGroup>,
)
    requires
        World::of_listings(left_cached, left, right_cached, right).converged(),
        patch_effects(p) == World::of_listings(left_cached, left, right_cached, right).plan_map(),
    ensures
        p.len() == 0,
{
    let w = World::of_listings(left_cached, left, right_cached, right);
    if p.len() > 0 {
        let k = p[0].message_id@;
        assert(patch_effects(p).contains_key(k));
        assert(w.state(k).converged());
        lemma_converged_plan_is_empty(w.state(k));
    }
}

/// Convergence, on listings: applying in full a patch built from four
/// listings leaves the folder converged.
pub proof fn lemma_built_patch_converges(
    left_cached: Seq<Envelope>,
    left: Seq<Envelope>,
    right_cached: Seq<Envelope>,
    right: Seq<Envelope>,
    p: Seq<HunkGroup>,
)
    requires
        patch_effects(p) == World::of_listings(left_cached, left, right_cached, right).plan_map(),
    ensures
        World::of_listings(left_cached, left, right_cached, right).apply_patch(patch_effects(p)).converged(),
{
    lemma_sync_converges(World::of_listings(left_cached, left, right_cached, right));
}

} // verus!
