//! The shared material table, keyed by tagged references.
//!
//! A reference carries its own type tag (`Base` vs `Composite`), so a lookup
//! is a safe pattern match rather than a cast. The table is mutated only by
//! insertion: stored entries are read, never changed, and a stored base
//! material stays at its index for the life of the store.

use vstd::prelude::*;

use crate::material::{BaseMaterial, CompositeMaterial};

verus! {

/// A material reference on an entity: exactly one of base-only or composite,
/// tagged with the index of the entry it names.
#[derive(Clone, Copy, PartialEq, Eq, Structural, Debug)]
pub enum MaterialRef {
    Base(usize),
    Composite(usize),
}

/// The single shared table of materials. Base and composite entries live in
/// separate insertion-ordered tables, so a `MaterialRef` resolves by tag and
/// index.
#[derive(Debug)]
pub struct MaterialStore {
    pub bases: Vec<BaseMaterial>,
    pub composites: Vec<CompositeMaterial>,
}

impl MaterialStore {
    /// Every stored record respects the binding-slot layout convention.
    pub open spec fn wf(self) -> bool {
        &&& forall|i: int| 0 <= i < self.bases@.len() ==> (#[trigger] self.bases@[i]).wf()
        &&& forall|i: int|
            0 <= i < self.composites@.len() ==> (#[trigger] self.composites@[i]).wf()
    }

    pub fn new() -> (s: MaterialStore)
        ensures
            s.bases@.len() == 0,
            s.composites@.len() == 0,
            s.wf(),
    {
        MaterialStore { bases: Vec::new(), composites: Vec::new() }
    }

    /// Insert a base material, returning the fresh reference that names it.
    pub fn add_base(&mut self, m: BaseMaterial) -> (r: MaterialRef)
        ensures
            r matches MaterialRef::Base(i) && i == old(self).bases@.len(),
            final(self).bases@ == old(self).bases@.push(m),
            final(self).composites@ == old(self).composites@,
            old(self).wf() && m.wf() ==> final(self).wf(),
    {
        let id = self.bases.len();
        self.bases.push(m);
        MaterialRef::Base(id)
    }

    /// Insert a composite material, returning the fresh reference that names
    /// it.
    pub fn add_composite(&mut self, m: CompositeMaterial) -> (r: MaterialRef)
        ensures
            r matches MaterialRef::Composite(i) && i == old(self).composites@.len(),
            final(self).composites@ == old(self).composites@.push(m),
            final(self).bases@ == old(self).bases@,
            old(self).wf() && m.wf() ==> final(self).wf(),
    {
        let id = self.composites.len();
        self.composites.push(m);
        MaterialRef::Composite(id)
    }

    /// Resolve a reference to the base material it names; `None` for a
    /// composite reference or a dangling index.
    pub fn get_base(&self, r: MaterialRef) -> (res: Option<&BaseMaterial>)
        ensures
            match r {
                MaterialRef::Base(i) => {
                    if (i as int) < self.bases@.len() {
                        res matches Some(m) && *m == self.bases@[i as int]
                    } else {
                        res is None
                    }
                },
                MaterialRef::Composite(_) => res is None,
            },
    {
        match r {
            MaterialRef::Base(i) => {
                if i < self.bases.len() {
                    Some(&self.bases[i])
                } else {
                    None
                }
            },
            MaterialRef::Composite(_) => None,
        }
    }

    /// Resolve a reference to the composite material it names; `None` for a
    /// base reference or a dangling index.
    pub fn get_composite(&self, r: MaterialRef) -> (res: Option<&CompositeMaterial>)
        ensures
            match r {
                MaterialRef::Composite(i) => {
                    if (i as int) < self.composites@.len() {
                        res matches Some(m) && *m == self.composites@[i as int]
                    } else {
                        res is None
                    }
                },
                MaterialRef::Base(_) => res is None,
            },
    {
        match r {
            MaterialRef::Composite(i) => {
                if i < self.composites.len() {
                    Some(&self.composites[i])
                } else {
                    None
                }
            },
            MaterialRef::Base(_) => None,
        }
    }
}

} // verus!
