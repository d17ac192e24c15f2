//! The patch builder: a four-way diff of the observed views of a folder.

use vstd::prelude::*;
use crate::envelope::Envelope;
use crate::flag::Flags;
use crate::hunk::{effects, Effect, EmailSyncHunk, KeyState, Side};
use crate::view::{add_keys, find_in_view, keys_of, lemma_view_dom, view_of};

verus! {

/// Sets the live flags of `side` to `u` unless they already are `u`.
pub open spec fn live_step(side: Side, f: Flags, u: Flags) -> Seq<Effect> {
    if f == u {
        Seq::empty()
    } else {
        seq![Effect::SetLive(side, u)]
    }
}

/// Makes the cache of `side` hold `u` unless it already does.
pub open spec fn cache_step(side: Side, c: Option<Flags>, u: Flags) -> Seq<Effect> {
    if c == Some(u) {
        Seq::empty()
    } else {
        seq![Effect::SetCache(side, u)]
    }
}

/// Clears the cache of `side` if it holds the message.
pub open spec fn clear_step(side: Side, c: Option<Flags>) -> Seq<Effect> {
    if c is Some {
        seq![Effect::ClearCache(side)]
    } else {
        Seq::empty()
    }
}

/// The plan when the message is live on `side` only, with flags `f`.
///
/// If both caches know the message, it was deleted from the other side
/// since the last sync: the deletion is propagated. Otherwise the message
/// is new on `side`, or its deletion on the other side conflicts with its
/// creation on `side`, which existence wins: it is copied over.
pub open spec fn one_sided_plan(s: KeyState, side: Side, f: Flags) -> Seq<Effect> {
    let other = side.spec_other();
    if s.cached(side) is Some && s.cached(other) is Some {
        seq![Effect::ClearLive(side), Effect::ClearCache(side), Effect::ClearCache(other)]
    } else {
        seq![Effect::SetLive(other, f)] + cache_step(side, s.cached(side), f) + cache_step(
            other,
            s.cached(other),
            f,
        )
    }
}

/// What the sync does to one message, given its four observed states.
///
/// Live on both sides: both sides and both caches converge on the union
/// of the two live flag sets. Live on one side: see `one_sided_plan`. Live
/// on neither: what the caches still hold is cleared. Live effects always
/// come before cache effects.
pub open spec fn plan(s: KeyState) -> Seq<Effect> {
    match (s.left, s.right) {
        (Some(l), Some(r)) => {
            let u = l.spec_union(r);
            live_step(Side::Left, l, u) + live_step(Side::Right, r, u) + cache_step(
                Side::Left,
                s.left_cached,
                u,
            ) + cache_step(Side::Right, s.right_cached, u)
        },
        (Some(l), None) => one_sided_plan(s, Side::Left, l),
        (None, Some(r)) => one_sided_plan(s, Side::Right, r),
        (None, None) => clear_step(Side::Left, s.left_cached) + clear_step(
            Side::Right,
            s.right_cached,
        ),
    }
}

/// The envelopes observed for one message: each is `None` where the
/// message is absent from that view.
#[derive(Clone, Copy, Debug)]
pub struct Observed<'a> {
    pub left_cached: Option<&'a Envelope>,
    pub left: Option<&'a Envelope>,
    pub right_cached: Option<&'a Envelope>,
    pub right: Option<&'a Envelope>,
}

pub open spec fn flags_of(e: Option<Envelope>) -> Option<Flags> {
    match e {
        Some(e) => Some(e.flags),
        None => None,
    }
}

pub open spec fn deref_env(e: Option<&Envelope>) -> Option<Envelope> {
    match e {
        Some(e) => Some(*e),
        None => None,
    }
}

/// `id` is the identifier of the observed envelope `e`.
pub open spec fn id_of(id: Seq<char>, e: Option<Envelope>) -> bool {
    match e {
        Some(e) => id == e.id@,
        None => false,
    }
}

/// The four envelopes observed for one message, as values.
#[derive(Clone, Debug)]
pub struct Sighting {
    pub left_cached: Option<Envelope>,
    pub left: Option<Envelope>,
    pub right_cached: Option<Envelope>,
    pub right: Option<Envelope>,
}

impl Sighting {
    pub open spec fn live(self, side: Side) -> Option<Envelope> {
        match side {
            Side::Left => self.left,
            Side::Right => self.right,
        }
    }

    pub open spec fn cached(self, side: Side) -> Option<Envelope> {
        match side {
            Side::Left => self.left_cached,
            Side::Right => self.right_cached,
        }
    }

    pub open spec fn state(self) -> KeyState {
        KeyState {
            left_cached: flags_of(self.left_cached),
            left: flags_of(self.left),
            right_cached: flags_of(self.right_cached),
            right: flags_of(self.right),
        }
    }

    /// The hunk acts in `folder`, on the store it names, through the
    /// identifier that store gave the message.
    pub open spec fn targets(self, h: EmailSyncHunk, folder: Seq<char>) -> bool {
        match h {
            EmailSyncHunk::FetchThenCache { folder: f, id, source, .. } => f@ == folder && id_of(
                id@,
                self.live(source),
            ),
            EmailSyncHunk::CopyToOtherSide { src_folder, dst_folder, id, source, .. } => src_folder@
                == folder && dst_folder@ == folder && id_of(id@, self.live(source)),
            EmailSyncHunk::UpdateLiveFlags { folder: f, id, side, .. } => f@ == folder && id_of(
                id@,
                self.live(side),
            ),
            EmailSyncHunk::UpdateCachedFlags { folder: f, id, side, .. } => f@ == folder && id_of(
                id@,
                self.cached(side),
            ),
            EmailSyncHunk::DeleteLive { folder: f, id, side } => f@ == folder && id_of(
                id@,
                self.live(side),
            ),
            EmailSyncHunk::DeleteCached { folder: f, id, side } => f@ == folder && id_of(
                id@,
                self.cached(side),
            ),
        }
    }

    pub open spec fn all_target(self, hs: Seq<EmailSyncHunk>, folder: Seq<char>) -> bool {
        forall|i: int| 0 <= i < hs.len() ==> self.targets(#[trigger] hs[i], folder)
    }
}

impl<'a> Observed<'a> {
    /// The observed envelopes as values.
    pub open spec fn sighting(self) -> Sighting {
        Sighting {
            left_cached: deref_env(self.left_cached),
            left: deref_env(self.left),
            right_cached: deref_env(self.right_cached),
            right: deref_env(self.right),
        }
    }

    pub open spec fn state(self) -> KeyState {
        self.sighting().state()
    }

    pub open spec fn live(self, side: Side) -> Option<Envelope> {
        self.sighting().live(side)
    }

    pub open spec fn cached(self, side: Side) -> Option<Envelope> {
        self.sighting().cached(side)
    }

    pub open spec fn targets(self, h: EmailSyncHunk, folder: Seq<char>) -> bool {
        self.sighting().targets(h, folder)
    }

    pub open spec fn all_target(self, hs: Seq<EmailSyncHunk>, folder: Seq<char>) -> bool {
        forall|i: int| 0 <= i < hs.len() ==> self.targets(#[trigger] hs[i], folder)
    }
}

proof fn lemma_effects_push(hs: Seq<EmailSyncHunk>, h: EmailSyncHunk)
    ensures
        effects(hs.push(h)) == effects(hs).push(h.effect()),
{
    assert(effects(hs.push(h)) =~= effects(hs).push(h.effect()));
}

fn push_hunk(hs: &mut Vec<EmailSyncHunk>, h: EmailSyncHunk, o: &Observed, folder: &String)
    requires
        o.all_target(old(hs)@, folder@),
        o.targets(h, folder@),
    ensures
        final(hs)@ == old(hs)@.push(h),
        effects(final(hs)@) == effects(old(hs)@).push(h.effect()),
        o.all_target(final(hs)@, folder@),
{
    proof {
        lemma_effects_push(hs@, h);
    }
    hs.push(h);
}

impl<'a> Observed<'a> {
    fn live_of(&self, side: Side) -> (r: Option<&'a Envelope>)
        ensures
            deref_env(r) == self.live(side),
    {
        match side {
            Side::Left => self.left,
            Side::Right => self.right,
        }
    }

    fn cached_of(&self, side: Side) -> (r: Option<&'a Envelope>)
        ensures
            deref_env(r) == self.cached(side),
    {
        match side {
            Side::Left => self.left_cached,
            Side::Right => self.right_cached,
        }
    }
}

/// Appends a flag update of the live store of `side` unless its flags
/// already are `u`.
fn push_live_step(hs: &mut Vec<EmailSyncHunk>, folder: &String, side: Side, u: Flags, o: &Observed)
    requires
        o.all_target(old(hs)@, folder@),
        o.live(side) is Some,
    ensures
        effects(final(hs)@) == effects(old(hs)@) + live_step(side, o.live(side)->0.flags, u),
        o.all_target(final(hs)@, folder@),
{
    let live = o.live_of(side).unwrap();
    if live.flags.same_as(&u) {
        assert(effects(hs@) =~= effects(hs@) + live_step(side, live.flags, u));
    } else {
        let h = EmailSyncHunk::UpdateLiveFlags {
            folder: folder.clone(),
            id: live.id.clone(),
            side,
            flags: u,
        };
        push_hunk(hs, h, o, folder);
        assert(effects(hs@) =~= effects(old(hs)@) + live_step(side, live.flags, u));
    }
}

/// Appends what makes the cache of `side` hold the message with flags
/// `u`: an update of the cached flags if the cache knows the message, a
/// fetch from the live store of `source` otherwise.
fn push_cache_step(
    hs: &mut Vec<EmailSyncHunk>,
    folder: &String,
    side: Side,
    source: Side,
    u: Flags,
    o: &Observed,
)
    requires
        o.all_target(old(hs)@, folder@),
        o.live(source) is Some,
    ensures
        effects(final(hs)@) == effects(old(hs)@) + cache_step(side, flags_of(o.cached(side)), u),
        o.all_target(final(hs)@, folder@),
{
    match o.cached_of(side) {
        None => {
            let src = o.live_of(source).unwrap();
            let h = EmailSyncHunk::FetchThenCache {
                folder: folder.clone(),
                id: src.id.clone(),
                source,
                cache: side,
                flags: u,
            };
            push_hunk(hs, h, o, folder);
        },
        Some(c) => {
            if !c.flags.same_as(&u) {
                let h = EmailSyncHunk::UpdateCachedFlags {
                    folder: folder.clone(),
                    id: c.id.clone(),
                    side,
                    flags: u,
                };
                push_hunk(hs, h, o, folder);
            }
        },
    }
    assert(effects(hs@) =~= effects(old(hs)@) + cache_step(side, flags_of(o.cached(side)), u));
}

/// Appends the removal of the message from the cache of `side`, if the
/// cache holds it.
fn push_clear_step(hs: &mut Vec<EmailSyncHunk>, folder: &String, side: Side, o: &Observed)
    requires
        o.all_target(old(hs)@, folder@),
    ensures
        effects(final(hs)@) == effects(old(hs)@) + clear_step(side, flags_of(o.cached(side))),
        o.all_target(final(hs)@, folder@),
{
    if let Some(c) = o.cached_of(side) {
        let h = EmailSyncHunk::DeleteCached { folder: folder.clone(), id: c.id.clone(), side };
        push_hunk(hs, h, o, folder);
    }
    assert(effects(hs@) =~= effects(old(hs)@) + clear_step(side, flags_of(o.cached(side))));
}

/// Appends the hunks of a message that is live on `side` only.
fn push_one_sided(hs: &mut Vec<EmailSyncHunk>, folder: &String, side: Side, o: &Observed)
    requires
        o.all_target(old(hs)@, folder@),
        o.live(side) is Some,
        o.live(side.spec_other()) is None,
    ensures
        effects(final(hs)@) == effects(old(hs)@) + one_sided_plan(
            o.state(),
            side,
            o.live(side)->0.flags,
        ),
        o.all_target(final(hs)@, folder@),
{
    let other = side.other();
    let live = o.live_of(side).unwrap();
    let ghost s = o.state();
    assert(s.cached(side) == flags_of(o.cached(side)));
    assert(s.cached(other) == flags_of(o.cached(other)));
    let ghost start = effects(hs@);
    if o.cached_of(side).is_some() && o.cached_of(other).is_some() {
        let h1 = EmailSyncHunk::DeleteLive { folder: folder.clone(), id: live.id.clone(), side };
        push_hunk(hs, h1, o, folder);
        push_clear_step(hs, folder, side, o);
        push_clear_step(hs, folder, other, o);
        assert(effects(hs@) =~= start + one_sided_plan(s, side, live.flags));
    } else {
        let h = EmailSyncHunk::CopyToOtherSide {
            src_folder: folder.clone(),
            dst_folder: folder.clone(),
            id: live.id.clone(),
            source: side,
            flags: live.flags,
        };
        push_hunk(hs, h, o, folder);
        push_cache_step(hs, folder, side, side, live.flags, o);
        push_cache_step(hs, folder, other, side, live.flags, o);
        assert(effects(hs@) =~= start + one_sided_plan(s, side, live.flags));
    }
}

/// The hunks that synchronize one message, in the order they must be
/// applied.
pub fn plan_message(folder: &String, o: &Observed) -> (hs: Vec<EmailSyncHunk>)
    ensures
        effects(hs@) == plan(o.state()),
        o.all_target(hs@, folder@),
{
    let mut hs: Vec<EmailSyncHunk> = Vec::new();
    assert(effects(hs@) =~= Seq::<Effect>::empty());
    let ghost s = o.state();
    match (o.left, o.right) {
        (Some(l), Some(r)) => {
            let u = l.flags.union(&r.flags);
            push_live_step(&mut hs, folder, Side::Left, u, o);
            push_live_step(&mut hs, folder, Side::Right, u, o);
            push_cache_step(&mut hs, folder, Side::Left, Side::Left, u, o);
            push_cache_step(&mut hs, folder, Side::Right, Side::Right, u, o);
            assert(effects(hs@) =~= plan(s));
        },
        (Some(_), None) => {
            push_one_sided(&mut hs, folder, Side::Left, o);
            assert(effects(hs@) =~= plan(s));
        },
        (None, Some(_)) => {
            push_one_sided(&mut hs, folder, Side::Right, o);
            assert(effects(hs@) =~= plan(s));
        },
        (None, None) => {
            push_clear_step(&mut hs, folder, Side::Left, o);
            push_clear_step(&mut hs, folder, Side::Right, o);
            assert(effects(hs@) =~= plan(s));
        },
    }
    hs
}

/// The value of `m` at `k`, or `None`.
pub open spec fn lookup<V>(m: Map<Seq<char>, V>, k: Seq<char>) -> Option<V> {
    if m.contains_key(k) {
        Some(m[k])
    } else {
        None
    }
}

/// The four views of a folder, each a map from message id to flags.
pub struct World {
    pub left_cached: Map<Seq<char>, Flags>,
    pub left: Map<Seq<char>, Flags>,
    pub right_cached: Map<Seq<char>, Flags>,
    pub right: Map<Seq<char>, Flags>,
}

pub open spec fn flags_view(envs: Seq<Envelope>) -> Map<Seq<char>, Flags> {
    view_of(envs).map_values(|e: Envelope| e.flags)
}

/// The envelopes that four listings hold for message `k`.
pub open spec fn sighting_at(
    left_cached: Seq<Envelope>,
    left: Seq<Envelope>,
    right_cached: Seq<Envelope>,
    right: Seq<Envelope>,
    k: Seq<char>,
) -> Sighting {
    Sighting {
        left_cached: lookup(view_of(left_cached), k),
        left: lookup(view_of(left), k),
        right_cached: lookup(view_of(right_cached), k),
        right: lookup(view_of(right), k),
    }
}

impl World {
    /// The world that four listings show.
    pub open spec fn of_listings(
        left_cached: Seq<Envelope>,
        left: Seq<Envelope>,
        right_cached: Seq<Envelope>,
        right: Seq<Envelope>,
    ) -> World {
        World {
            left_cached: flags_view(left_cached),
            left: flags_view(left),
            right_cached: flags_view(right_cached),
            right: flags_view(right),
        }
    }

    /// The four observed states of message `k`.
    pub open spec fn state(self, k: Seq<char>) -> KeyState {
        KeyState {
            left_cached: lookup(self.left_cached, k),
            left: lookup(self.left, k),
            right_cached: lookup(self.right_cached, k),
            right: lookup(self.right, k),
        }
    }

    /// The world whose message `k` is in state `f(k)`.
    pub open spec fn from_states(f: spec_fn(Seq<char>) -> KeyState) -> World {
        World {
            left_cached: Map::new(|k| f(k).left_cached is Some, |k| f(k).left_cached->0),
            left: Map::new(|k| f(k).left is Some, |k| f(k).left->0),
            right_cached: Map::new(|k| f(k).right_cached is Some, |k| f(k).right_cached->0),
            right: Map::new(|k| f(k).right is Some, |k| f(k).right->0),
        }
    }

    /// The effects the sync plans, for each message that needs any.
    pub open spec fn plan_map(self) -> Map<Seq<char>, Seq<Effect>> {
        Map::new(|k| plan(self.state(k)).len() > 0, |k| plan(self.state(k)))
    }

    /// The world after the effects of `patch`, each message's in order.
    pub open spec fn apply_patch(self, patch: Map<Seq<char>, Seq<Effect>>) -> World {
        World::from_states(
            |k|
                if patch.contains_key(k) {
                    self.state(k).apply_all(patch[k])
                } else {
                    self.state(k)
                },
        )
    }

    /// The two live views and the two caches are equal.
    pub open spec fn converged(self) -> bool {
        &&& self.left == self.right
        &&& self.left_cached == self.left
        &&& self.right_cached == self.right
    }
}

/// The effects of each group of a patch, by message id.
pub open spec fn patch_effects(p: Seq<HunkGroup>) -> Map<Seq<char>, Seq<Effect>> {
    Map::new(
        |k: Seq<char>| exists|i: int| 0 <= i < p.len() && (#[trigger] p[i]).message_id@ == k,
        |k: Seq<char>|
            effects(
                p[choose|i: int| 0 <= i < p.len() && (#[trigger] p[i]).message_id@ == k].hunks@,
            ),
    )
}

/// The hunks of one message, in the order they must be applied.
#[derive(Clone, Debug)]
pub struct HunkGroup {
    pub message_id: String,
    pub hunks: Vec<EmailSyncHunk>,
}

proof fn lemma_observed_at(
    o: Observed,
    lc: Seq<Envelope>,
    l: Seq<Envelope>,
    rc: Seq<Envelope>,
    r: Seq<Envelope>,
    k: Seq<char>,
)
    requires
        o.sighting() == sighting_at(lc, l, rc, r, k),
    ensures
        o.state() == World::of_listings(lc, l, rc, r).state(k),
{
}

#[verifier::rlimit(60)]
/// Builds the patch of `folder` from its four listings: one group for each
/// message that needs any hunk.
pub fn build_patch(
    folder: &String,
    left_cached: &Vec<Envelope>,
    left: &Vec<Envelope>,
    right_cached: &Vec<Envelope>,
    right: &Vec<Envelope>,
) -> (p: Vec<HunkGroup>)
    ensures
        patch_effects(p@) == World::of_listings(left_cached@, left@, right_cached@, right@).plan_map(),
        forall|i: int, j: int|
            0 <= i < j < p.len() ==> (#[trigger] p@[i]).message_id@ != (#[trigger] p@[j]).message_id@,
        forall|i: int|
            0 <= i < p.len() ==> sighting_at(left_cached@, left@, right_cached@, right@, (#[trigger] p@[i]).message_id@).all_target(
                p@[i].hunks@,
                folder@,
            ),
{
    let ghost w = World::of_listings(left_cached@, left@, right_cached@, right@);
    let mut keys: Vec<String> = Vec::new();
    proof {
        assert(keys@.map_values(|s: String| s@) =~= Seq::<Seq<char>>::empty());
    }
    add_keys(&mut keys, left_cached);
    add_keys(&mut keys, left);
    add_keys(&mut keys, right_cached);
    add_keys(&mut keys, right);
    let ghost ks = keys@.map_values(|s: String| s@);
    proof {
        lemma_view_dom(left_cached@);
        lemma_view_dom(left@);
        lemma_view_dom(right_cached@);
        lemma_view_dom(right@);
        assert(Seq::<Seq<char>>::empty().to_set() =~= Set::<Seq<char>>::empty());
        // A message outside every listing needs no hunk.
        assert forall|k: Seq<char>| !ks.contains(k) implies plan(w.state(k)).len() == 0 by {
            assert(!ks.to_set().contains(k));
        }
    }
    let mut p: Vec<HunkGroup> = Vec::new();
    let mut i: usize = 0;
    while i < keys.len()
        invariant
            i <= keys.len(),
            ks == keys@.map_values(|s: String| s@),
            ks.no_duplicates(),
            forall|k: Seq<char>| !ks.contains(k) ==> plan(w.state(k)).len() == 0,
            w == World::of_listings(left_cached@, left@, right_cached@, right@),
            forall|a: int| 0 <= a < p.len() ==> exists|b: int| 0 <= b < i && (#[trigger] p@[a]).message_id@ == ks[b],
            p.len() <= i,
            forall|a: int, c: int|
                0 <= a < c < p.len() ==> (#[trigger] p@[a]).message_id@ != (#[trigger] p@[c]).message_id@,
            forall|a: int|
                0 <= a < p.len() ==> effects((#[trigger] p@[a]).hunks@) == plan(w.state(p@[a].message_id@))
                    && plan(w.state(p@[a].message_id@)).len() > 0,
            forall|a: int|
                0 <= a < p.len() ==> sighting_at(left_cached@, left@, right_cached@, right@, (#[trigger] p@[a]).message_id@).all_target(
                    p@[a].hunks@,
                    folder@,
                ),
            forall|b: int|
                0 <= b < i && plan(w.state(#[trigger] ks[b])).len() > 0 ==> exists|a: int|
                    0 <= a < p.len() && (#[trigger] p@[a]).message_id@ == ks[b],
        decreases keys.len() - i,
    {
        let key = &keys[i];
        let o = Observed {
            left_cached: find_in_view(left_cached, key),
            left: find_in_view(left, key),
            right_cached: find_in_view(right_cached, key),
            right: find_in_view(right, key),
        };
        proof {
            assert(o.sighting() == sighting_at(left_cached@, left@, right_cached@, right@, key@));
            lemma_observed_at(o, left_cached@, left@, right_cached@, right@, key@);
        }
        let hunks = plan_message(folder, &o);
        let ghost earlier = p@;
        if hunks.len() > 0 {
            proof {
                assert(effects(hunks@).len() == hunks@.len());
                assert forall|a: int| 0 <= a < earlier.len() implies (#[trigger] earlier[a]).message_id@ != key@ by {
                    let b = choose|b: int| 0 <= b < i && earlier[a].message_id@ == ks[b];
                    assert(ks[b] != ks[i as int]);
                }
            }
            let g = HunkGroup { message_id: key.clone(), hunks };
            p.push(g);
            proof {
                assert(p@[earlier.len() as int].message_id@ == ks[i as int]);
                assert forall|a: int| 0 <= a < p.len() implies exists|b: int| 0 <= b < i + 1 && (#[trigger] p@[a]).message_id@ == ks[b] by {
                    if a < earlier.len() {
                        assert(p@[a] == earlier[a]);
                        let b = choose|b: int| 0 <= b < i && earlier[a].message_id@ == ks[b];
                        assert(p@[a].message_id@ == ks[b]);
                    } else {
                        assert(p@[a].message_id@ == ks[i as int]);
                    }
                }
            }
        } else {
            proof {
                assert(effects(hunks@).len() == hunks@.len());
            }
        }
        proof {
            assert forall|b: int| 0 <= b < i + 1 && plan(w.state(#[trigger] ks[b])).len() > 0 implies exists|a: int|
                0 <= a < p.len() && (#[trigger] p@[a]).message_id@ == ks[b] by {
                if b == i {
                    assert(p@[p.len() - 1].message_id@ == ks[b]);
                } else {
                    let a = choose|a: int| 0 <= a < earlier.len() && (#[trigger] earlier[a]).message_id@ == ks[b];
                    assert(p@[a] == earlier[a]);
                    assert(p@[a].message_id@ == ks[b]);
                }
            }
        }
        i = i + 1;
    }
    proof {
        let pe = patch_effects(p@);
        let pm = w.plan_map();
        assert forall|k: Seq<char>| pe.contains_key(k) <==> pm.contains_key(k) by {
            if pe.contains_key(k) {
                let a = choose|a: int| 0 <= a < p.len() && (#[trigger] p@[a]).message_id@ == k;
            }
            if pm.contains_key(k) {
                assert(ks.contains(k));
                let b = choose|b: int| 0 <= b < ks.len() && ks[b] == k;
            }
        }
        assert forall|k: Seq<char>| pe.contains_key(k) implies pe[k] == pm[k] by {
            let a = choose|a: int| 0 <= a < p.len() && (#[trigger] p@[a]).message_id@ == k;
        }
        assert(pe =~= pm);
    }
    p
}

} // verus!
