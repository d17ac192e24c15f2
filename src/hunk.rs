//! Hunks: the atomic operations a patch is made of, and what each does to
//! the four observed states of one message.

use vstd::prelude::*;
use crate::flag::Flags;

verus! {

/// One of the two synchronized stores.
#[derive(Clone, Copy, Debug, PartialEq, Eq, Structural, Hash)]
pub enum Side {
    Left,
    Right,
}

impl Side {
    pub open spec fn spec_other(self) -> Side {
        match self {
            Side::Left => Side::Right,
            Side::Right => Side::Left,
        }
    }

    /// The opposite side.
    pub fn other(self) -> (r: Side)
        ensures
            r == self.spec_other(),
    {
        match self {
            Side::Left => Side::Right,
            Side::Right => Side::Left,
        }
    }
}

/// An atomic, idempotent operation against one live store or one cache.
///
/// Each `id` is the identifier of the message in the store the operation
/// reads from (for fetches and copies) or acts on (otherwise).
#[derive(Clone, Debug)]
pub enum EmailSyncHunk {
    /// Fetches message `id` from the live store of `source` and adds it
    /// with `flags` to the cache of `cache`.
    FetchThenCache { folder: String, id: String, source: Side, cache: Side, flags: Flags },
    /// Copies message `id` from the live store of `source` to the live
    /// store of the other side, with `flags`.
    CopyToOtherSide { src_folder: String, dst_folder: String, id: String, source: Side, flags: Flags },
    /// Sets the flags of message `id` in the live store of `side`.
    UpdateLiveFlags { folder: String, id: String, side: Side, flags: Flags },
    /// Sets the flags of message `id` in the cache of `side`.
    UpdateCachedFlags { folder: String, id: String, side: Side, flags: Flags },
    /// Deletes message `id` from the live store of `side`.
    DeleteLive { folder: String, id: String, side: Side },
    /// Deletes message `id` from the cache of `side`.
    DeleteCached { folder: String, id: String, side: Side },
}

/// What a hunk does to the message it concerns.
#[derive(Clone, Copy, Debug, PartialEq, Eq, Structural)]
pub enum Effect {
    /// The live store of the side holds the message with these flags.
    SetLive(Side, Flags),
    /// The live store of the side no longer holds the message.
    ClearLive(Side),
    /// The cache of the side holds the message with these flags.
    SetCache(Side, Flags),
    /// The cache of the side no longer holds the message.
    ClearCache(Side),
}

impl Effect {
    /// Whether the effect mutates a cache rather than a live store.
    pub open spec fn is_cache(self) -> bool {
        self is SetCache || self is ClearCache
    }
}

/// The four observed states of one message: for each side, its flags in
/// the live store and in the cache, or `None` where it is absent.
#[derive(Clone, Copy, Debug, PartialEq, Eq, Structural)]
pub struct KeyState {
    pub left_cached: Option<Flags>,
    pub left: Option<Flags>,
    pub right_cached: Option<Flags>,
    pub right: Option<Flags>,
}

impl KeyState {
    pub open spec fn live(self, side: Side) -> Option<Flags> {
        match side {
            Side::Left => self.left,
            Side::Right => self.right,
        }
    }

    pub open spec fn cached(self, side: Side) -> Option<Flags> {
        match side {
            Side::Left => self.left_cached,
            Side::Right => self.right_cached,
        }
    }

    pub open spec fn with_live(self, side: Side, v: Option<Flags>) -> KeyState {
        match side {
            Side::Left => KeyState { left: v, ..self },
            Side::Right => KeyState { right: v, ..self },
        }
    }

    pub open spec fn with_cached(self, side: Side, v: Option<Flags>) -> KeyState {
        match side {
            Side::Left => KeyState { left_cached: v, ..self },
            Side::Right => KeyState { right_cached: v, ..self },
        }
    }

    /// All four views agree: the message is synchronized.
    pub open spec fn converged(self) -> bool {
        &&& self.left == self.right
        &&& self.left_cached == self.left
        &&& self.right_cached == self.right
    }

    /// The state after `e`.
    pub open spec fn apply(self, e: Effect) -> KeyState {
        match e {
            Effect::SetLive(side, f) => self.with_live(side, Some(f)),
            Effect::ClearLive(side) => self.with_live(side, None),
            Effect::SetCache(side, f) => self.with_cached(side, Some(f)),
            Effect::ClearCache(side) => self.with_cached(side, None),
        }
    }

    /// The state after the effects, applied in order.
    pub open spec fn apply_all(self, es: Seq<Effect>) -> KeyState
        decreases es.len(),
    {
        if es.len() == 0 {
            self
        } else {
            self.apply_all(es.drop_last()).apply(es.last())
        }
    }
}

impl EmailSyncHunk {
    /// What the hunk does to the message it concerns.
    pub open spec fn effect(&self) -> Effect {
        match self {
            EmailSyncHunk::FetchThenCache { cache, flags, .. } => Effect::SetCache(*cache, *flags),
            EmailSyncHunk::CopyToOtherSide { source, flags, .. } => Effect::SetLive(
                source.spec_other(),
                *flags,
            ),
            EmailSyncHunk::UpdateLiveFlags { side, flags, .. } => Effect::SetLive(*side, *flags),
            EmailSyncHunk::UpdateCachedFlags { side, flags, .. } => Effect::SetCache(*side, *flags),
            EmailSyncHunk::DeleteLive { side, .. } => Effect::ClearLive(*side),
            EmailSyncHunk::DeleteCached { side, .. } => Effect::ClearCache(*side),
        }
    }

    /// A copy of the hunk.
    pub fn duplicate(&self) -> (r: EmailSyncHunk)
        ensures
            r == *self,
    {
        match self {
            EmailSyncHunk::FetchThenCache { folder, id, source, cache, flags } => {
                EmailSyncHunk::FetchThenCache {
                    folder: folder.clone(),
                    id: id.clone(),
                    source: *source,
                    cache: *cache,
                    flags: *flags,
                }
            },
            EmailSyncHunk::CopyToOtherSide { src_folder, dst_folder, id, source, flags } => {
                EmailSyncHunk::CopyToOtherSide {
                    src_folder: src_folder.clone(),
                    dst_folder: dst_folder.clone(),
                    id: id.clone(),
                    source: *source,
                    flags: *flags,
                }
            },
            EmailSyncHunk::UpdateLiveFlags { folder, id, side, flags } => {
                EmailSyncHunk::UpdateLiveFlags {
                    folder: folder.clone(),
                    id: id.clone(),
                    side: *side,
                    flags: *flags,
                }
            },
            EmailSyncHunk::UpdateCachedFlags { folder, id, side, flags } => {
                EmailSyncHunk::UpdateCachedFlags {
                    folder: folder.clone(),
                    id: id.clone(),
                    side: *side,
                    flags: *flags,
                }
            },
            EmailSyncHunk::DeleteLive { folder, id, side } => {
                EmailSyncHunk::DeleteLive { folder: folder.clone(), id: id.clone(), side: *side }
            },
            EmailSyncHunk::DeleteCached { folder, id, side } => {
                EmailSyncHunk::DeleteCached { folder: folder.clone(), id: id.clone(), side: *side }
            },
        }
    }

    /// Whether the hunk mutates a cache; such a hunk depends on the live
    /// hunks before it in its group.
    pub fn is_cache(&self) -> (r: bool)
        ensures
            r == self.effect().is_cache(),
    {
        match self {
            EmailSyncHunk::FetchThenCache { .. } => true,
            EmailSyncHunk::UpdateCachedFlags { .. } => true,
            EmailSyncHunk::DeleteCached { .. } => true,
            _ => false,
        }
    }
}

/// The effects of a sequence of hunks.
pub open spec fn effects(hs: Seq<EmailSyncHunk>) -> Seq<Effect> {
    hs.map_values(|h: EmailSyncHunk| h.effect())
}

/// No cache effect comes before a live effect.
pub open spec fn live_before_cache(es: Seq<Effect>) -> bool {
    forall|i: int, j: int| 0 <= i < j < es.len() && (#[trigger] es[i]).is_cache() ==> (
    #[trigger] es[j]).is_cache()
}

} // verus!
