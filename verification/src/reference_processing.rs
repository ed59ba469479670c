//! The candidate registries the reference classifier routes weak, soft and
//! phantom reference-holding instances into, one per strength category.
//!
//! Registries are append-only while a collection cycle is scanning and are
//! drained exactly once per cycle by the reference-processing subsystem.

use vstd::prelude::*;
use crate::object_model::RefStrength;
use crate::work_packets::addrs_of;

verus! {

/// One candidate set per deferred reference-strength category.
pub struct CandidateRegistries {
    weak: Vec<usize>,
    soft: Vec<usize>,
    phantom: Vec<usize>,
}

impl CandidateRegistries {
    /// Objects registered as weak-reference candidates, in registration order.
    pub closed spec fn weak(self) -> Seq<int> {
        addrs_of(self.weak@)
    }

    /// Objects registered as soft-reference candidates.
    pub closed spec fn soft(self) -> Seq<int> {
        addrs_of(self.soft@)
    }

    /// Objects registered as phantom-reference candidates.
    pub closed spec fn phantom(self) -> Seq<int> {
        addrs_of(self.phantom@)
    }

    /// Fresh, empty registries for a new collection cycle.
    pub fn new() -> (r: Self)
        ensures
            r.weak() == Seq::<int>::empty(),
            r.soft() == Seq::<int>::empty(),
            r.phantom() == Seq::<int>::empty(),
    {
        let r = CandidateRegistries { weak: Vec::new(), soft: Vec::new(), phantom: Vec::new() };
        proof {
            assert(r.weak() =~= Seq::<int>::empty());
            assert(r.soft() =~= Seq::<int>::empty());
            assert(r.phantom() =~= Seq::<int>::empty());
        }
        r
    }

    /// Appends `object` to the registry of its strength category.  Only the
    /// three deferred categories have a registry.
    pub fn register_candidate(&mut self, category: RefStrength, object: usize)
        requires
            category == RefStrength::Weak || category == RefStrength::Soft || category
                == RefStrength::Phantom,
        ensures
            final(self).weak() == if category == RefStrength::Weak {
                old(self).weak().push(object as int)
            } else {
                old(self).weak()
            },
            final(self).soft() == if category == RefStrength::Soft {
                old(self).soft().push(object as int)
            } else {
                old(self).soft()
            },
            final(self).phantom() == if category == RefStrength::Phantom {
                old(self).phantom().push(object as int)
            } else {
                old(self).phantom()
            },
    {
        proof {
            old(self).weak@.lemma_push_map_commute(|x: usize| x as int, object);
            old(self).soft@.lemma_push_map_commute(|x: usize| x as int, object);
            old(self).phantom@.lemma_push_map_commute(|x: usize| x as int, object);
        }
        match category {
            RefStrength::Weak => self.weak.push(object),
            RefStrength::Soft => self.soft.push(object),
            RefStrength::Phantom => self.phantom.push(object),
            _ => vstd::pervasive::unreached(),
        }
    }

    /// Drains the weak candidates: the cycle's one handoff to the
    /// reference-processing subsystem.
    pub fn take_weak_candidates(&mut self) -> (candidates: Vec<usize>)
        ensures
            addrs_of(candidates@) == old(self).weak(),
            final(self).weak() == Seq::<int>::empty(),
            final(self).soft() == old(self).soft(),
            final(self).phantom() == old(self).phantom(),
    {
        let mut taken: Vec<usize> = Vec::new();
        core::mem::swap(&mut self.weak, &mut taken);
        proof {
            assert(self.weak() =~= Seq::<int>::empty());
        }
        taken
    }

    /// Drains the soft candidates.
    pub fn take_soft_candidates(&mut self) -> (candidates: Vec<usize>)
        ensures
            addrs_of(candidates@) == old(self).soft(),
            final(self).soft() == Seq::<int>::empty(),
            final(self).weak() == old(self).weak(),
            final(self).phantom() == old(self).phantom(),
    {
        let mut taken: Vec<usize> = Vec::new();
        core::mem::swap(&mut self.soft, &mut taken);
        proof {
            assert(self.soft() =~= Seq::<int>::empty());
        }
        taken
    }

    /// Drains the phantom candidates.
    pub fn take_phantom_candidates(&mut self) -> (candidates: Vec<usize>)
        ensures
            addrs_of(candidates@) == old(self).phantom(),
            final(self).phantom() == Seq::<int>::empty(),
            final(self).weak() == old(self).weak(),
            final(self).soft() == old(self).soft(),
    {
        let mut taken: Vec<usize> = Vec::new();
        core::mem::swap(&mut self.phantom, &mut taken);
        proof {
            assert(self.phantom() =~= Seq::<int>::empty());
        }
        taken
    }

    /// Read access to the weak candidates.
    pub fn weak_candidates(&self) -> (candidates: &Vec<usize>)
        ensures
            addrs_of(candidates@) == self.weak(),
    {
        &self.weak
    }

    /// Read access to the soft candidates.
    pub fn soft_candidates(&self) -> (candidates: &Vec<usize>)
        ensures
            addrs_of(candidates@) == self.soft(),
    {
        &self.soft
    }

    /// Read access to the phantom candidates.
    pub fn phantom_candidates(&self) -> (candidates: &Vec<usize>)
        ensures
            addrs_of(candidates@) == self.phantom(),
    {
        &self.phantom
    }
}

} // verus!
