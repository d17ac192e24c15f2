//! Folder synchronization settings.

use vstd::prelude::*;
use std::collections::HashSet;
use crate::flag::Flags;
use crate::hunk::{Effect, KeyState, Side};
use crate::patch::plan;
use crate::view::{add_names, contains_key, string_set};

verus! {

/// Which folders a sync covers.
#[derive(Debug)]
pub enum FolderSyncStrategy {
    /// All folders.
    All,
    /// Only the folders with these names.
    Include(HashSet<String>),
    /// All folders but the ones with these names.
    Exclude(HashSet<String>),
}

impl Default for FolderSyncStrategy {
    fn default() -> (r: FolderSyncStrategy)
        ensures
            r is All,
    {
        FolderSyncStrategy::All
    }
}

impl FolderSyncStrategy {
    /// Whether this is the default strategy, which covers all folders.
    pub fn is_default(&self) -> (r: bool)
        ensures
            r == (*self is All),
    {
        match self {
            FolderSyncStrategy::All => true,
            _ => false,
        }
    }
}

/// An atomic operation of a folder sync, on the folder `name`.
#[derive(Clone, Debug, PartialEq, Eq)]
pub enum FolderSyncHunk {
    /// Creates the folder in the live store of the side.
    CreateLive(String, Side),
    /// Records the folder in the cache of the side.
    CreateCached(String, Side),
    /// Deletes the folder from the live store of the side.
    DeleteLive(String, Side),
    /// Removes the folder from the cache of the side.
    DeleteCached(String, Side),
}

/// The flags a folder stands with: folders carry none.
pub open spec fn no_flags() -> Flags {
    Flags { seen: false, answered: false, flagged: false, deleted: false, draft: false }
}

pub open spec fn presence(b: bool) -> Option<Flags> {
    if b {
        Some(no_flags())
    } else {
        None
    }
}

/// The four observed states of a folder, as states of a message without
/// flags: a folder sync is a message sync on names alone.
pub open spec fn folder_state(left_cached: bool, left: bool, right_cached: bool, right: bool) -> KeyState {
    KeyState {
        left_cached: presence(left_cached),
        left: presence(left),
        right_cached: presence(right_cached),
        right: presence(right),
    }
}

impl FolderSyncHunk {
    pub open spec fn name(&self) -> Seq<char> {
        match self {
            FolderSyncHunk::CreateLive(n, _) => n@,
            FolderSyncHunk::CreateCached(n, _) => n@,
            FolderSyncHunk::DeleteLive(n, _) => n@,
            FolderSyncHunk::DeleteCached(n, _) => n@,
        }
    }

    /// What the hunk does to its folder.
    pub open spec fn effect(&self) -> Effect {
        match self {
            FolderSyncHunk::CreateLive(_, side) => Effect::SetLive(*side, no_flags()),
            FolderSyncHunk::CreateCached(_, side) => Effect::SetCache(*side, no_flags()),
            FolderSyncHunk::DeleteLive(_, side) => Effect::ClearLive(*side),
            FolderSyncHunk::DeleteCached(_, side) => Effect::ClearCache(*side),
        }
    }
}

pub open spec fn folder_effects(hs: Seq<FolderSyncHunk>) -> Seq<Effect> {
    hs.map_values(|h: FolderSyncHunk| h.effect())
}

fn push_folder_hunk(hs: &mut Vec<FolderSyncHunk>, h: FolderSyncHunk, name: &String)
    requires
        h.name() == name@,
        forall|i: int| 0 <= i < old(hs)@.len() ==> (#[trigger] old(hs)@[i]).name() == name@,
    ensures
        folder_effects(final(hs)@) == folder_effects(old(hs)@).push(h.effect()),
        forall|i: int| 0 <= i < final(hs)@.len() ==> (#[trigger] final(hs)@[i]).name() == name@,
{
    let ghost before = hs@;
    hs.push(h);
    assert(folder_effects(hs@) =~= folder_effects(before).push(h.effect()));
}

/// The hunks that synchronize the folder `name`, given where it is listed,
/// in the order they must be applied.
pub fn plan_folder(name: &String, left_cached: bool, left: bool, right_cached: bool, right: bool) -> (hs: Vec<FolderSyncHunk>)
    ensures
        folder_effects(hs@) == plan(folder_state(left_cached, left, right_cached, right)),
        forall|i: int| 0 <= i < hs@.len() ==> (#[trigger] hs@[i]).name() == name@,
{
    let ghost s = folder_state(left_cached, left, right_cached, right);
    let mut hs: Vec<FolderSyncHunk> = Vec::new();
    assert(folder_effects(hs@) =~= Seq::<Effect>::empty());
    if left && right {
        assert(no_flags().spec_union(no_flags()) == no_flags());
        if !left_cached {
            push_folder_hunk(&mut hs, FolderSyncHunk::CreateCached(name.clone(), Side::Left), name);
        }
        if !right_cached {
            push_folder_hunk(&mut hs, FolderSyncHunk::CreateCached(name.clone(), Side::Right), name);
        }
    } else if left || right {
        let side = if left { Side::Left } else { Side::Right };
        let other = side.other();
        let (side_cached, other_cached) = if left {
            (left_cached, right_cached)
        } else {
            (right_cached, left_cached)
        };
        if side_cached && other_cached {
            push_folder_hunk(&mut hs, FolderSyncHunk::DeleteLive(name.clone(), side), name);
            push_folder_hunk(&mut hs, FolderSyncHunk::DeleteCached(name.clone(), side), name);
            push_folder_hunk(&mut hs, FolderSyncHunk::DeleteCached(name.clone(), other), name);
        } else {
            push_folder_hunk(&mut hs, FolderSyncHunk::CreateLive(name.clone(), other), name);
            if !side_cached {
                push_folder_hunk(&mut hs, FolderSyncHunk::CreateCached(name.clone(), side), name);
            }
            if !other_cached {
                push_folder_hunk(&mut hs, FolderSyncHunk::CreateCached(name.clone(), other), name);
            }
        }
    } else {
        if left_cached {
            push_folder_hunk(&mut hs, FolderSyncHunk::DeleteCached(name.clone(), Side::Left), name);
        }
        if right_cached {
            push_folder_hunk(&mut hs, FolderSyncHunk::DeleteCached(name.clone(), Side::Right), name);
        }
    }
    assert(folder_effects(hs@) =~= plan(s));
    hs
}

/// The hunks of one folder.
#[derive(Clone, Debug)]
pub struct FolderHunkGroup {
    pub name: String,
    pub hunks: Vec<FolderSyncHunk>,
}

/// The state of the folder `k` in the four listings of folder names.
pub open spec fn folder_state_in(
    left_cached: Seq<String>,
    left: Seq<String>,
    right_cached: Seq<String>,
    right: Seq<String>,
    k: Seq<char>,
) -> KeyState {
    folder_state(
        string_set(left_cached).contains(k),
        string_set(left).contains(k),
        string_set(right_cached).contains(k),
        string_set(right).contains(k),
    )
}

/// The patch of a folder sync, from the four listings of folder names:
/// one group for each name listed anywhere, with the hunks of
/// `plan_folder`.
pub fn build_folder_patch(
    left_cached: &Vec<String>,
    left: &Vec<String>,
    right_cached: &Vec<String>,
    right: &Vec<String>,
) -> (p: Vec<FolderHunkGroup>)
    ensures
        forall|i: int|
            0 <= i < p@.len() ==> folder_effects((#[trigger] p@[i]).hunks@) == plan(
                folder_state_in(left_cached@, left@, right_cached@, right@, p@[i].name@),
            ),
        forall|i: int, j: int|
            0 <= i < p@.len() && 0 <= j < p@[i].hunks@.len() ==> (#[trigger] p@[i].hunks@[j]).name()
                == p@[i].name@,
        forall|i: int, j: int| 0 <= i < j < p@.len() ==> (#[trigger] p@[i]).name@ != (#[trigger] p@[j]).name@,
        p@.map_values(|g: FolderHunkGroup| g.name@).to_set() == string_set(left_cached@).union(
            string_set(left@),
        ).union(string_set(right_cached@)).union(string_set(right@)),
{
    let mut names: Vec<String> = Vec::new();
    proof {
        assert(names@.map_values(|s: String| s@) =~= Seq::<Seq<char>>::empty());
        assert(string_set(names@) =~= Set::<Seq<char>>::empty());
    }
    add_names(&mut names, left_cached);
    add_names(&mut names, left);
    add_names(&mut names, right_cached);
    add_names(&mut names, right);
    let ghost ns = names@.map_values(|s: String| s@);
    let mut p: Vec<FolderHunkGroup> = Vec::new();
    let mut i: usize = 0;
    while i < names.len()
        invariant
            i <= names@.len(),
            ns == names@.map_values(|s: String| s@),
            ns.no_duplicates(),
            p@.len() == i,
            forall|a: int| 0 <= a < i ==> (#[trigger] p@[a]).name@ == ns[a],
            forall|a: int|
                0 <= a < i ==> folder_effects((#[trigger] p@[a]).hunks@) == plan(
                    folder_state_in(left_cached@, left@, right_cached@, right@, p@[a].name@),
                ),
            forall|a: int, j: int|
                0 <= a < i && 0 <= j < p@[a].hunks@.len() ==> (#[trigger] p@[a].hunks@[j]).name()
                    == p@[a].name@,
        decreases names.len() - i,
    {
        let name = &names[i];
        let lc = contains_key(left_cached, name);
        let l = contains_key(left, name);
        let rc = contains_key(right_cached, name);
        let r = contains_key(right, name);
        let hunks = plan_folder(name, lc, l, rc, r);
        p.push(FolderHunkGroup { name: name.clone(), hunks });
        i = i + 1;
    }
    proof {
        assert(p@.map_values(|g: FolderHunkGroup| g.name@) =~= ns);
        assert forall|a: int, b: int| 0 <= a < b < p@.len() implies (#[trigger] p@[a]).name@ != (#[trigger] p@[b]).name@ by {
            assert(ns[a] != ns[b]);
        }
    }
    p
}

} // verus!
