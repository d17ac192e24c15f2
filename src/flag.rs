//! Message flags and flag sets.

use vstd::prelude::*;

verus! {

/// A message flag.
#[derive(Clone, Copy, Debug, PartialEq, Eq, Structural, Hash)]
pub enum Flag {
    Seen,
    Answered,
    Flagged,
    Deleted,
    Draft,
}

/// A set of message flags, one membership bit per flag.
#[derive(Clone, Copy, Debug, PartialEq, Eq, Structural, Hash)]
pub struct Flags {
    pub seen: bool,
    pub answered: bool,
    pub flagged: bool,
    pub deleted: bool,
    pub draft: bool,
}

impl View for Flags {
    type V = Set<Flag>;

    open spec fn view(&self) -> Set<Flag> {
        Set::new(|f: Flag| self.has(f))
    }
}

impl Flags {
    /// Whether the flag `f` belongs to the set.
    pub open spec fn has(self, f: Flag) -> bool {
        match f {
            Flag::Seen => self.seen,
            Flag::Answered => self.answered,
            Flag::Flagged => self.flagged,
            Flag::Deleted => self.deleted,
            Flag::Draft => self.draft,
        }
    }

    /// The set union of two flag sets.
    pub open spec fn spec_union(self, other: Flags) -> Flags {
        Flags {
            seen: self.seen || other.seen,
            answered: self.answered || other.answered,
            flagged: self.flagged || other.flagged,
            deleted: self.deleted || other.deleted,
            draft: self.draft || other.draft,
        }
    }

    /// Two flag sets are equal exactly when their views are.
    pub proof fn lemma_view_injective(a: Flags, b: Flags)
        ensures
            a@ == b@ <==> a == b,
    {
        if a@ == b@ {
            assert(a@.contains(Flag::Seen) == b@.contains(Flag::Seen));
            assert(a@.contains(Flag::Answered) == b@.contains(Flag::Answered));
            assert(a@.contains(Flag::Flagged) == b@.contains(Flag::Flagged));
            assert(a@.contains(Flag::Deleted) == b@.contains(Flag::Deleted));
            assert(a@.contains(Flag::Draft) == b@.contains(Flag::Draft));
        }
    }

    /// The view of a union is the union of the views.
    pub proof fn lemma_union_view(a: Flags, b: Flags)
        ensures
            a.spec_union(b)@ == a@.union(b@),
    {
        assert(a.spec_union(b)@ =~= a@.union(b@));
    }

    /// The empty flag set.
    pub fn new() -> (r: Flags)
        ensures
            r@ == Set::<Flag>::empty(),
    {
        let r = Flags { seen: false, answered: false, flagged: false, deleted: false, draft: false };
        assert(r@ =~= Set::<Flag>::empty());
        r
    }

    /// Whether `f` belongs to the set.
    pub fn contains(&self, f: Flag) -> (r: bool)
        ensures
            r == self@.contains(f),
    {
        match f {
            Flag::Seen => self.seen,
            Flag::Answered => self.answered,
            Flag::Flagged => self.flagged,
            Flag::Deleted => self.deleted,
            Flag::Draft => self.draft,
        }
    }

    /// Adds `f` to the set.
    pub fn insert(&mut self, f: Flag)
        ensures
            final(self)@ == old(self)@.insert(f),
    {
        match f {
            Flag::Seen => self.seen = true,
            Flag::Answered => self.answered = true,
            Flag::Flagged => self.flagged = true,
            Flag::Deleted => self.deleted = true,
            Flag::Draft => self.draft = true,
        }
        assert(self@ =~= old(self)@.insert(f));
    }

    /// Removes `f` from the set.
    pub fn remove(&mut self, f: Flag)
        ensures
            final(self)@ == old(self)@.remove(f),
    {
        match f {
            Flag::Seen => self.seen = false,
            Flag::Answered => self.answered = false,
            Flag::Flagged => self.flagged = false,
            Flag::Deleted => self.deleted = false,
            Flag::Draft => self.draft = false,
        }
        assert(self@ =~= old(self)@.remove(f));
    }

    /// The set union of `self` and `other`.
    pub fn union(&self, other: &Flags) -> (r: Flags)
        ensures
            r == self.spec_union(*other),
            r@ == self@.union(other@),
    {
        proof {
            Flags::lemma_union_view(*self, *other);
        }
        Flags {
            seen: self.seen || other.seen,
            answered: self.answered || other.answered,
            flagged: self.flagged || other.flagged,
            deleted: self.deleted || other.deleted,
            draft: self.draft || other.draft,
        }
    }

    /// Whether both sets hold the same flags.
    pub fn same_as(&self, other: &Flags) -> (r: bool)
        ensures
            r == (self@ == other@),
            r == (*self == *other),
    {
        proof {
            Flags::lemma_view_injective(*self, *other);
        }
        self.seen == other.seen && self.answered == other.answered && self.flagged
            == other.flagged && self.deleted == other.deleted && self.draft == other.draft
    }

    /// The number of flags in the set.
    pub fn len(&self) -> (r: usize)
        ensures
            r == self@.len(),
    {
        let mut n: usize = 0;
        if self.seen { n = n + 1; }
        if self.answered { n = n + 1; }
        if self.flagged { n = n + 1; }
        if self.deleted { n = n + 1; }
        if self.draft { n = n + 1; }
        proof {
            Flags::lemma_len(*self);
        }
        n
    }

    /// The size of the view, counted flag by flag.
    pub proof fn lemma_len(s: Flags)
        ensures
            s@.len() == (if s.seen { 1int } else { 0 }) + (if s.answered { 1int } else { 0 }) + (
            if s.flagged { 1int } else { 0 }) + (if s.deleted { 1int } else { 0 }) + (if s.draft {
                1int
            } else {
                0
            }),
    {
        let all = set![Flag::Seen, Flag::Answered, Flag::Flagged, Flag::Deleted, Flag::Draft];
        let a = if s.seen { set![Flag::Seen] } else { Set::<Flag>::empty() };
        let b = if s.answered { set![Flag::Answered] } else { Set::<Flag>::empty() };
        let c = if s.flagged { set![Flag::Flagged] } else { Set::<Flag>::empty() };
        let d = if s.deleted { set![Flag::Deleted] } else { Set::<Flag>::empty() };
        let e = if s.draft { set![Flag::Draft] } else { Set::<Flag>::empty() };
        assert(s@ =~= a.union(b).union(c).union(d).union(e));
        vstd::set_lib::lemma_set_disjoint_lens(a, b);
        vstd::set_lib::lemma_set_disjoint_lens(a.union(b), c);
        vstd::set_lib::lemma_set_disjoint_lens(a.union(b).union(c), d);
        vstd::set_lib::lemma_set_disjoint_lens(a.union(b).union(c).union(d), e);
    }
}

} // verus!
