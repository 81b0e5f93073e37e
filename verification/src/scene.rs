//! The entity tree instantiated from a loaded composite asset, and the
//! descendant walker over it.
//!
//! Entities are stored in spawn order, each with an optional parent that was
//! spawned earlier. That ordering makes every parent chain finite, so
//! membership in a root's subtree is a well-founded recursion over the chain.
//! The walker yields every descendant of a root exactly once, lazily, and
//! cannot be restarted: its cursor only ever advances.

use vstd::prelude::*;

use crate::store::MaterialRef;

verus! {

/// One node of the scene graph: its parent, if any, and its material
/// reference, if any. The subtree structure and the material assignment are
/// this core's whole view of an entity.
#[derive(Clone, Copy, PartialEq, Eq, Debug)]
pub struct Entity {
    pub parent: Option<usize>,
    pub material: Option<MaterialRef>,
}

/// The parent of each entity, by index.
pub open spec fn parent_map(s: Seq<Entity>) -> Seq<Option<usize>> {
    Seq::new(s.len(), |i: int| s[i].parent)
}

/// Every parent was spawned before its child.
pub open spec fn parents_wf(ps: Seq<Option<usize>>) -> bool {
    forall|i: int|
        0 <= i < ps.len() ==> match #[trigger] ps[i] {
            Some(p) => p < i,
            None => true,
        }
}

/// Whether entity `e`'s parent chain reaches `root` (with `e == root` itself
/// counting as reached). Each step moves to a strictly smaller index, so the
/// chain is finite.
pub open spec fn reaches_root(ps: Seq<Option<usize>>, e: int, root: int) -> bool
    decreases e,
{
    if e == root {
        true
    } else if 0 <= e < ps.len() {
        match ps[e] {
            Some(p) => {
                if p < e {
                    reaches_root(ps, p as int, root)
                } else {
                    false
                }
            },
            None => false,
        }
    } else {
        false
    }
}

/// Entity `e` is a transitive child of `root`.
pub open spec fn is_descendant(s: Seq<Entity>, e: int, root: int) -> bool {
    e != root && reaches_root(parent_map(s), e, root)
}

/// Subtree membership depends only on the parent structure: two scenes with
/// the same parent map have the same descendants, whatever materials their
/// entities hold.
pub proof fn lemma_descendant_same(s1: Seq<Entity>, s0: Seq<Entity>, e: int, root: int)
    requires
        parent_map(s1) == parent_map(s0),
    ensures
        is_descendant(s1, e, root) == is_descendant(s0, e, root),
{
}

/// The parent/child entity tree instantiated from a loaded composite asset.
pub struct SceneGraph {
    pub entities: Vec<Entity>,
}

impl SceneGraph {
    pub open spec fn wf(self) -> bool {
        parents_wf(parent_map(self.entities@))
    }

    pub fn new() -> (s: SceneGraph)
        ensures
            s.entities@.len() == 0,
            s.wf(),
    {
        SceneGraph { entities: Vec::new() }
    }

    /// Add an entity under an already-spawned parent (or as a root), with an
    /// optional initial material reference. Returns the new entity's index.
    pub fn spawn(&mut self, parent: Option<usize>, material: Option<MaterialRef>) -> (id: usize)
        requires
            parent matches Some(p) ==> p < old(self).entities@.len(),
        ensures
            id == old(self).entities@.len(),
            final(self).entities@ == old(self).entities@.push(Entity { parent, material }),
            old(self).wf() ==> final(self).wf(),
    {
        let id = self.entities.len();
        self.entities.push(Entity { parent, material });
        proof {
            let ps0 = parent_map(old(self).entities@);
            let ps1 = parent_map(self.entities@);
            assert(ps1 =~= ps0.push(parent));
        }
        id
    }

    /// Atomically replace an entity's material reference: the entity holds
    /// the old reference until this write and the new one after it, never
    /// none. The tree structure is untouched.
    pub fn set_material(&mut self, e: usize, m: MaterialRef)
        requires
            e < old(self).entities@.len(),
        ensures
            final(self).entities@ == old(self).entities@.update(
                e as int,
                Entity { parent: old(self).entities@[e as int].parent, material: Some(m) },
            ),
            parent_map(final(self).entities@) == parent_map(old(self).entities@),
    {
        let mut ent = self.entities[e];
        ent.material = Some(m);
        self.entities.set(e, ent);
        proof {
            assert(parent_map(self.entities@) =~= parent_map(old(self).entities@));
        }
    }

    /// Walk the parent chain of `e` and report whether it passes through
    /// `root`.
    pub fn is_descendant_of(&self, e: usize, root: usize) -> (r: bool)
        requires
            self.wf(),
            e < self.entities@.len(),
        ensures
            r == is_descendant(self.entities@, e as int, root as int),
    {
        if e == root {
            return false;
        }
        let mut cur: usize = e;
        loop
            invariant
                self.wf(),
                cur < self.entities@.len(),
                cur != root,
                e != root,
                reaches_root(parent_map(self.entities@), e as int, root as int)
                    == reaches_root(parent_map(self.entities@), cur as int, root as int),
            decreases cur,
        {
            match self.entities[cur].parent {
                None => {
                    return false;
                },
                Some(p) => {
                    proof {
                        let ps = parent_map(self.entities@);
                        assert(ps[cur as int] == Some(p));
                        assert(p < cur);
                        assert(reaches_root(ps, cur as int, root as int) == reaches_root(
                            ps,
                            p as int,
                            root as int,
                        ));
                    }
                    if p == root {
                        return true;
                    }
                    cur = p;
                },
            }
        }
    }
}

/// A lazy, non-restartable walk over the descendants of one root. Each call
/// to [`DescendantWalker::next`] yields the next descendant that exists in
/// the scene at that moment; the cursor only advances, so no descendant is
/// yielded twice.
pub struct DescendantWalker {
    pub root: usize,
    pub cursor: usize,
}

impl DescendantWalker {
    pub fn new(root: usize) -> (w: DescendantWalker)
        ensures
            w.root == root,
            w.cursor == 0,
    {
        DescendantWalker { root, cursor: 0 }
    }

    /// Yield the next descendant of the root at or after the cursor, or
    /// `None` when the walk is exhausted.
    pub fn next(&mut self, scene: &SceneGraph) -> (r: Option<usize>)
        requires
            scene.wf(),
            old(self).root < scene.entities@.len(),
        ensures
            final(self).root == old(self).root,
            old(self).cursor <= final(self).cursor,
            final(self).cursor <= scene.entities@.len() || final(self).cursor == old(self).cursor,
            match r {
                Some(e) => {
                    &&& old(self).cursor <= e < scene.entities@.len()
                    &&& is_descendant(scene.entities@, e as int, old(self).root as int)
                    &&& forall|k: int|
                        old(self).cursor <= k < e ==> !is_descendant(
                            scene.entities@,
                            k,
                            old(self).root as int,
                        )
                    &&& final(self).cursor == e + 1
                },
                None => {
                    &&& forall|k: int|
                        old(self).cursor <= k < scene.entities@.len() ==> !is_descendant(
                            scene.entities@,
                            k,
                            old(self).root as int,
                        )
                    &&& final(self).cursor >= scene.entities@.len()
                },
            },
    {
        while self.cursor < scene.entities.len()
            invariant
                scene.wf(),
                self.root == old(self).root,
                self.root < scene.entities@.len(),
                old(self).cursor <= self.cursor,
                self.cursor <= scene.entities@.len() || self.cursor == old(self).cursor,
                forall|k: int|
                    old(self).cursor <= k < self.cursor ==> !is_descendant(
                        scene.entities@,
                        k,
                        self.root as int,
                    ),
            decreases scene.entities@.len() - self.cursor,
        {
            let e = self.cursor;
            self.cursor = e + 1;
            if scene.is_descendant_of(e, self.root) {
                return Some(e);
            }
        }
        None
    }
}

/// Collect the full descendant walk of `root` into a vector: every
/// transitive child of `root` that exists at the time of the call appears
/// exactly once (the indices are strictly increasing), and nothing else
/// does.
pub fn descendants(scene: &SceneGraph, root: usize) -> (v: Vec<usize>)
    requires
        scene.wf(),
        root < scene.entities@.len(),
    ensures
        forall|j: int, k: int| 0 <= j < k < v@.len() ==> v@[j] < v@[k],
        forall|j: int|
            0 <= j < v@.len() ==> is_descendant(scene.entities@, v@[j] as int, root as int),
        forall|e: int|
            0 <= e < scene.entities@.len() && is_descendant(scene.entities@, e, root as int)
                ==> exists|j: int| 0 <= j < v@.len() && v@[j] == e,
{
    let mut v: Vec<usize> = Vec::new();
    let mut walker = DescendantWalker::new(root);
    while walker.cursor < scene.entities.len()
        invariant
            scene.wf(),
            root < scene.entities@.len(),
            walker.root == root,
            walker.cursor <= scene.entities@.len(),
            forall|j: int| 0 <= j < v@.len() ==> (#[trigger] v@[j]) < walker.cursor,
            forall|j: int, k: int| 0 <= j < k < v@.len() ==> v@[j] < v@[k],
            forall|j: int|
                0 <= j < v@.len() ==> is_descendant(scene.entities@, v@[j] as int, root as int),
            forall|e: int|
                0 <= e < walker.cursor && is_descendant(scene.entities@, e, root as int)
                    ==> exists|j: int| 0 <= j < v@.len() && v@[j] == e,
        decreases scene.entities@.len() - walker.cursor,
    {
        let ghost prev = walker.cursor as int;
        let ghost len_before = v@.len() as int;
        match walker.next(scene) {
            Some(e) => {
                let ghost v_before = v@;
                v.push(e);
                proof {
                    assert(v@[len_before] == e);
                    assert forall|e2: int|
                        0 <= e2 < walker.cursor && is_descendant(
                            scene.entities@,
                            e2,
                            root as int,
                        ) implies exists|j: int| 0 <= j < v@.len() && v@[j] == e2 by {
                        if e2 < prev {
                            let j = choose|j: int| 0 <= j < len_before && v_before[j] == e2;
                            assert(v@[j] == e2);
                        } else if e2 == e as int {
                            assert(v@[len_before] == e2);
                        }
                    }
                }
            },
            None => {},
        }
    }
    v
}

} // verus!
