//! The material augmentation engine.
//!
//! [`augment`] converts every eligible descendant of a root from a base-only
//! material reference to a composite reference exactly once. A descendant is
//! eligible when it holds a base-only reference that resolves in the store;
//! a dangling base reference is skipped and recorded as a soft warning, and
//! an entity that is not a descendant, has no material, or is already
//! composite is left untouched. Base materials are only read, never changed,
//! and the store only grows, so a second pass finds nothing eligible:
//! augmentation is idempotent ([`lemma_augment_idempotent`]).

use vstd::prelude::*;

use crate::material::{BaseMaterial, CompositeMaterial, ExtensionParams};
use crate::scene::{
    lemma_descendant_same, is_descendant, parent_map, DescendantWalker, Entity, SceneGraph,
};
use crate::store::{MaterialRef, MaterialStore};
use crate::tracker::{LoadEntry, LoadHandle, LoadTracker};

verus! {

/// What one augmentation pass did: how many descendants were converted to
/// composite references, and how many were skipped with a dangling-reference
/// warning.
#[derive(Clone, Copy, PartialEq, Eq, Structural, Debug)]
pub struct AugmentReport {
    pub converted: usize,
    pub dangling: usize,
}

/// Entity `e` is a descendant of `root` holding a base-only reference that
/// resolves in a store with `bases` base entries: exactly the entities one
/// augmentation pass converts.
pub open spec fn eligible(s: Seq<Entity>, bases: Seq<BaseMaterial>, root: int, e: int) -> bool {
    &&& 0 <= e < s.len()
    &&& is_descendant(s, e, root)
    &&& (s[e].material matches Some(MaterialRef::Base(b)) && (b as int) < bases.len())
}

/// Entity `e` is a descendant holding a base-only reference that does not
/// resolve: skipped with a warning.
pub open spec fn dangling_base(s: Seq<Entity>, bases: Seq<BaseMaterial>, root: int,
    e: int) -> bool {
    &&& 0 <= e < s.len()
    &&& is_descendant(s, e, root)
    &&& (s[e].material matches Some(MaterialRef::Base(b)) && (b as int) >= bases.len())
}

/// How many of the entities below index `n` are eligible.
pub open spec fn count_eligible(s: Seq<Entity>, bases: Seq<BaseMaterial>, root: int,
    n: int) -> nat
    decreases n,
{
    if n <= 0 {
        0
    } else {
        count_eligible(s, bases, root, n - 1) + if eligible(s, bases, root, n - 1) {
            1nat
        } else {
            0nat
        }
    }
}

/// How many of the entities below index `n` hold a dangling base reference.
pub open spec fn count_dangling(s: Seq<Entity>, bases: Seq<BaseMaterial>, root: int,
    n: int) -> nat
    decreases n,
{
    if n <= 0 {
        0
    } else {
        count_dangling(s, bases, root, n - 1) + if dangling_base(s, bases, root, n - 1) {
            1nat
        } else {
            0nat
        }
    }
}

/// What one augmentation pass leaves behind at entity `e`, given the scene
/// `s0` and store contents (`bases`, `c0_len` composites) it started from and
/// the extension defaults `d`: an eligible entity points at its own fresh
/// composite (the defensive copy of its base parameters plus `d`), placed
/// after the pre-existing composites in conversion order; every other entity
/// is exactly as it was.
pub open spec fn entity_augmented(
    s0: Seq<Entity>,
    bases: Seq<BaseMaterial>,
    c0_len: int,
    root: int,
    d: Seq<u32>,
    s1: Seq<Entity>,
    c1: Seq<CompositeMaterial>,
    e: int,
) -> bool {
    if eligible(s0, bases, root, e) {
        let ci = c0_len + count_eligible(s0, bases, root, e);
        &&& s1[e].parent == s0[e].parent
        &&& (s1[e].material matches Some(MaterialRef::Composite(c)) && c == ci)
        &&& 0 <= ci < c1.len()
        &&& (s0[e].material matches Some(MaterialRef::Base(b)) ==> {
            &&& c1[ci].base_params@ == bases[b as int].params@
            &&& c1[ci].ext_params@ == d
        })
    } else {
        s1[e] == s0[e]
    }
}

/// Everything one augmentation pass over `root` guarantees, relating the
/// scene and store before (`s0`, `b0`, `c0`) and after (`s1`, `b1`, `c1`):
/// the tree structure and the base table are untouched, pre-existing
/// composites are untouched, each eligible descendant gains its own fresh
/// composite carrying its base parameters unchanged plus the defaults `d`,
/// every other entity is untouched, and the report counts conversions and
/// dangling-reference warnings exactly.
pub open spec fn augment_post(
    s0: Seq<Entity>,
    b0: Seq<BaseMaterial>,
    c0: Seq<CompositeMaterial>,
    root: int,
    d: Seq<u32>,
    s1: Seq<Entity>,
    b1: Seq<BaseMaterial>,
    c1: Seq<CompositeMaterial>,
    rep: AugmentReport,
) -> bool {
    &&& s1.len() == s0.len()
    &&& parent_map(s1) == parent_map(s0)
    &&& b1 == b0
    &&& c1.len() == c0.len() + count_eligible(s0, b0, root, s0.len() as int)
    &&& c1.subrange(0, c0.len() as int) == c0
    &&& forall|e: int|
        0 <= e < s0.len() ==> #[trigger] entity_augmented(
            s0,
            b0,
            c0.len() as int,
            root,
            d,
            s1,
            c1,
            e,
        )
    &&& rep.converted == count_eligible(s0, b0, root, s0.len() as int)
    &&& rep.dangling == count_dangling(s0, b0, root, s0.len() as int)
}

/// Both counts are bounded by the index range they count over.
proof fn lemma_counts_le(s: Seq<Entity>, bases: Seq<BaseMaterial>, root: int, n: int)
    requires
        n >= 0,
    ensures
        count_eligible(s, bases, root, n) <= n,
        count_dangling(s, bases, root, n) <= n,
    decreases n,
{
    if n > 0 {
        lemma_counts_le(s, bases, root, n - 1);
    }
}

/// Over a stretch with no eligible entity the eligible count is flat.
proof fn lemma_count_eligible_constant(s: Seq<Entity>, bases: Seq<BaseMaterial>, root: int,
    i: int, j: int)
    requires
        i <= j,
        forall|k: int| i <= k < j ==> !eligible(s, bases, root, k),
    ensures
        count_eligible(s, bases, root, j) == count_eligible(s, bases, root, i),
    decreases j - i,
{
    if i < j {
        lemma_count_eligible_constant(s, bases, root, i, j - 1);
    }
}

/// Over a stretch with no dangling base reference the warning count is flat.
proof fn lemma_count_dangling_constant(s: Seq<Entity>, bases: Seq<BaseMaterial>, root: int,
    i: int, j: int)
    requires
        i <= j,
        forall|k: int| i <= k < j ==> !dangling_base(s, bases, root, k),
    ensures
        count_dangling(s, bases, root, j) == count_dangling(s, bases, root, i),
    decreases j - i,
{
    if i < j {
        lemma_count_dangling_constant(s, bases, root, i, j - 1);
    }
}

/// Convert every eligible descendant of `root` from a base-only to a fresh
/// composite material reference, exactly once per descendant, in a single
/// pass over the descendant walk. Each entity's reference is replaced in one
/// write, so no entity is ever observable without a material.
pub fn augment(scene: &mut SceneGraph, store: &mut MaterialStore, root: usize,
    defaults: &ExtensionParams) -> (rep: AugmentReport)
    requires
        old(scene).wf(),
        root < old(scene).entities@.len(),
        old(store).wf(),
        defaults.wf(),
    ensures
        augment_post(
            old(scene).entities@,
            old(store).bases@,
            old(store).composites@,
            root as int,
            defaults.params@,
            final(scene).entities@,
            final(store).bases@,
            final(store).composites@,
            rep,
        ),
        final(scene).wf(),
        final(store).wf(),
{
    let ghost s0 = scene.entities@;
    let ghost b0 = store.bases@;
    let ghost c0 = store.composites@;
    let ghost rt = root as int;
    let ghost d = defaults.params@;
    let mut walker = DescendantWalker::new(root);
    let mut converted: usize = 0;
    let mut dangling_count: usize = 0;
    while walker.cursor < scene.entities.len()
        invariant
            scene.wf(),
            store.wf(),
            defaults.wf(),
            d == defaults.params@,
            rt == root as int,
            walker.root == root,
            root < scene.entities@.len(),
            scene.entities@.len() == s0.len(),
            parent_map(scene.entities@) == parent_map(s0),
            walker.cursor <= s0.len(),
            store.bases@ == b0,
            store.composites@.len() == c0.len() + count_eligible(s0, b0, rt, walker.cursor as int),
            store.composites@.subrange(0, c0.len() as int) == c0,
            converted == count_eligible(s0, b0, rt, walker.cursor as int),
            dangling_count == count_dangling(s0, b0, rt, walker.cursor as int),
            forall|k: int|
                0 <= k < walker.cursor ==> #[trigger] entity_augmented(
                    s0,
                    b0,
                    c0.len() as int,
                    rt,
                    d,
                    scene.entities@,
                    store.composites@,
                    k,
                ),
            forall|k: int| walker.cursor <= k < s0.len() ==> scene.entities@[k] == s0[k],
        decreases s0.len() - walker.cursor,
    {
        let ghost prev = walker.cursor as int;
        match walker.next(scene) {
            None => {
                proof {
                    assert forall|k: int|
                        prev <= k < s0.len() implies !eligible(s0, b0, rt, k) && !dangling_base(
                        s0,
                        b0,
                        rt,
                        k,
                    ) by {
                        lemma_descendant_same(scene.entities@, s0, k, rt);
                    }
                    lemma_count_eligible_constant(s0, b0, rt, prev, s0.len() as int);
                    lemma_count_dangling_constant(s0, b0, rt, prev, s0.len() as int);
                }
            },
            Some(e) => {
                proof {
                    assert forall|k: int|
                        prev <= k < e as int implies !eligible(s0, b0, rt, k) && !dangling_base(
                        s0,
                        b0,
                        rt,
                        k,
                    ) by {
                        lemma_descendant_same(scene.entities@, s0, k, rt);
                    }
                    lemma_count_eligible_constant(s0, b0, rt, prev, e as int);
                    lemma_count_dangling_constant(s0, b0, rt, prev, e as int);
                    lemma_counts_le(s0, b0, rt, e as int);
                    lemma_descendant_same(scene.entities@, s0, e as int, rt);
                }
                let ent = scene.entities[e];
                match ent.material {
                    Some(MaterialRef::Base(b)) => {
                        let resolved = store.get_base(MaterialRef::Base(b));
                        match resolved {
                            Some(base_ref) => {
                                let ghost scene_pre = scene.entities@;
                                let ghost comps_pre = store.composites@;
                                let comp = CompositeMaterial::compose(base_ref, defaults);
                                let r = store.add_composite(comp);
                                scene.set_material(e, r);
                                converted = converted + 1;
                                proof {
                                    assert(eligible(s0, b0, rt, e as int));
                                    assert(store.composites@.subrange(0, c0.len() as int) =~= c0);
                                    assert forall|k: int|
                                        0 <= k < e as int + 1 implies #[trigger] entity_augmented(
                                        s0,
                                        b0,
                                        c0.len() as int,
                                        rt,
                                        d,
                                        scene.entities@,
                                        store.composites@,
                                        k,
                                    ) by {
                                        if k < prev {
                                            assert(entity_augmented(
                                                s0,
                                                b0,
                                                c0.len() as int,
                                                rt,
                                                d,
                                                scene_pre,
                                                comps_pre,
                                                k,
                                            ));
                                            assert(scene.entities@[k] == scene_pre[k]);
                                            if eligible(s0, b0, rt, k) {
                                                let ci = c0.len() as int + count_eligible(
                                                    s0,
                                                    b0,
                                                    rt,
                                                    k,
                                                ) as int;
                                                assert(store.composites@ == comps_pre.push(comp));
                                                assert(0 <= ci < comps_pre.len());
                                                assert(store.composites@[ci] == comps_pre[ci]);
                                            }
                                        } else if k < e as int {
                                            assert(scene.entities@[k] == s0[k]);
                                        } else {
                                            let ci = c0.len() as int + count_eligible(
                                                s0,
                                                b0,
                                                rt,
                                                e as int,
                                            ) as int;
                                            assert(ci == comps_pre.len());
                                            assert(store.composites@[ci] == comp);
                                            assert(scene.entities@[k].parent == s0[k].parent);
                                            assert(scene.entities@[k].material matches Some(
                                                MaterialRef::Composite(c),
                                            ) && c == ci);
                                        }
                                    }
                                }
                            },
                            None => {
                                dangling_count = dangling_count + 1;
                                proof {
                                    assert(dangling_base(s0, b0, rt, e as int));
                                    assert(!eligible(s0, b0, rt, e as int));
                                }
                            },
                        }
                    },
                    _ => {
                        proof {
                            assert(!eligible(s0, b0, rt, e as int));
                            assert(!dangling_base(s0, b0, rt, e as int));
                        }
                    },
                }
            },
        }
    }
    AugmentReport { converted, dangling: dangling_count }
}

/// Augmentation is total over resolvable descendants: after a pass, every
/// descendant that held a resolvable base-only reference before it holds a
/// composite reference.
pub proof fn lemma_augment_covers_resolvable_descendants(
    s0: Seq<Entity>,
    b0: Seq<BaseMaterial>,
    c0: Seq<CompositeMaterial>,
    root: int,
    d: Seq<u32>,
    s1: Seq<Entity>,
    b1: Seq<BaseMaterial>,
    c1: Seq<CompositeMaterial>,
    rep: AugmentReport,
    e: int,
)
    requires
        augment_post(s0, b0, c0, root, d, s1, b1, c1, rep),
        eligible(s0, b0, root, e),
    ensures
        s1[e].material matches Some(MaterialRef::Composite(ci)) && c0.len() <= ci < c1.len(),
{
    assert(entity_augmented(s0, b0, c0.len() as int, root, d, s1, c1, e));
}

/// Parameter preservation: for every augmented entity, every base-parameter
/// word in the resulting composite equals the corresponding word of the
/// pre-augmentation base material, bit for bit, and the extension words are
/// exactly the supplied defaults.
pub proof fn lemma_augment_preserves_base_params(
    s0: Seq<Entity>,
    b0: Seq<BaseMaterial>,
    c0: Seq<CompositeMaterial>,
    root: int,
    d: Seq<u32>,
    s1: Seq<Entity>,
    b1: Seq<BaseMaterial>,
    c1: Seq<CompositeMaterial>,
    rep: AugmentReport,
    e: int,
    b: usize,
)
    requires
        augment_post(s0, b0, c0, root, d, s1, b1, c1, rep),
        eligible(s0, b0, root, e),
        s0[e].material == Some(MaterialRef::Base(b)),
    ensures
        s1[e].material matches Some(MaterialRef::Composite(ci)) && {
            &&& c1[ci as int].base_params@ == b0[b as int].params@
            &&& c1[ci as int].ext_params@ == d
        },
{
    assert(entity_augmented(s0, b0, c0.len() as int, root, d, s1, c1, e));
}

/// Idempotence: a second pass over the result of a first pass changes
/// nothing — same entities, same store, zero conversions.
pub proof fn lemma_augment_idempotent(
    s0: Seq<Entity>,
    b0: Seq<BaseMaterial>,
    c0: Seq<CompositeMaterial>,
    root: int,
    d: Seq<u32>,
    s1: Seq<Entity>,
    b1: Seq<BaseMaterial>,
    c1: Seq<CompositeMaterial>,
    rep1: AugmentReport,
    s2: Seq<Entity>,
    b2: Seq<BaseMaterial>,
    c2: Seq<CompositeMaterial>,
    rep2: AugmentReport,
)
    requires
        augment_post(s0, b0, c0, root, d, s1, b1, c1, rep1),
        augment_post(s1, b1, c1, root, d, s2, b2, c2, rep2),
    ensures
        s2 == s1,
        b2 == b1,
        c2 == c1,
        rep2.converted == 0,
{
    assert forall|e: int| 0 <= e < s1.len() implies !eligible(s1, b1, root, e) by {
        assert(entity_augmented(s0, b0, c0.len() as int, root, d, s1, c1, e));
        if !eligible(s0, b0, root, e) && eligible(s1, b1, root, e) {
            lemma_descendant_same(s1, s0, e, root);
            assert(false);
        }
    }
    lemma_count_eligible_constant(s1, b1, root, 0, s1.len() as int);
    assert(rep2.converted == 0);
    assert(c2 =~= c1) by {
        assert forall|i: int| 0 <= i < c2.len() implies c2[i] == c1[i] by {
            assert(c1[i] == c2.subrange(0, c1.len() as int)[i]);
        }
    }
    assert(s2 =~= s1) by {
        assert forall|i: int| 0 <= i < s2.len() implies s2[i] == s1[i] by {
            assert(entity_augmented(s1, b1, c1.len() as int, root, d, s2, c2, i));
        }
    }
}

/// Every slot a pass fills is filled by some eligible entity: the `j`-th
/// conversion (in index order) has a witness below `n`.
proof fn lemma_count_eligible_surjective(s: Seq<Entity>, bases: Seq<BaseMaterial>, root: int,
    n: int, j: int)
    requires
        0 <= j < count_eligible(s, bases, root, n),
    ensures
        exists|e: int|
            0 <= e < n && #[trigger] eligible(s, bases, root, e) && count_eligible(
                s,
                bases,
                root,
                e,
            ) == j,
    decreases n,
{
    if n > 0 {
        if j < count_eligible(s, bases, root, n - 1) {
            lemma_count_eligible_surjective(s, bases, root, n - 1, j);
        } else {
            assert(eligible(s, bases, root, n - 1) && count_eligible(s, bases, root, n - 1) == j);
        }
    }
}

/// No entity is ever left without a material: whatever held a reference
/// before a pass holds one after it.
pub proof fn lemma_no_entity_loses_its_material(
    s0: Seq<Entity>,
    b0: Seq<BaseMaterial>,
    c0: Seq<CompositeMaterial>,
    root: int,
    d: Seq<u32>,
    s1: Seq<Entity>,
    b1: Seq<BaseMaterial>,
    c1: Seq<CompositeMaterial>,
    rep: AugmentReport,
    e: int,
)
    requires
        augment_post(s0, b0, c0, root, d, s1, b1, c1, rep),
        0 <= e < s0.len(),
        s0[e].material is Some,
    ensures
        s1[e].material is Some,
{
    assert(entity_augmented(s0, b0, c0.len() as int, root, d, s1, c1, e));
}

/// Processing order cannot affect the final assignment: the pass's
/// postcondition pins, from the starting state alone, every entity's final
/// reference, the report, and the parameter words of every stored
/// composite. Two runs from the same state agree on all of them.
pub proof fn lemma_augment_order_independent(
    s0: Seq<Entity>,
    b0: Seq<BaseMaterial>,
    c0: Seq<CompositeMaterial>,
    root: int,
    d: Seq<u32>,
    s1: Seq<Entity>,
    b1: Seq<BaseMaterial>,
    c1: Seq<CompositeMaterial>,
    rep1: AugmentReport,
    s2: Seq<Entity>,
    b2: Seq<BaseMaterial>,
    c2: Seq<CompositeMaterial>,
    rep2: AugmentReport,
)
    requires
        augment_post(s0, b0, c0, root, d, s1, b1, c1, rep1),
        augment_post(s0, b0, c0, root, d, s2, b2, c2, rep2),
    ensures
        s2 == s1,
        b2 == b1,
        rep2 == rep1,
        c2.len() == c1.len(),
        forall|i: int|
            0 <= i < c1.len() ==> (#[trigger] c1[i]).base_params@ == c2[i].base_params@
                && c1[i].ext_params@ == c2[i].ext_params@,
{
    assert(s1 =~= s2) by {
        assert forall|e: int| 0 <= e < s1.len() implies s1[e] == s2[e] by {
            assert(entity_augmented(s0, b0, c0.len() as int, root, d, s1, c1, e));
            assert(entity_augmented(s0, b0, c0.len() as int, root, d, s2, c2, e));
        }
    }
    assert forall|i: int|
        0 <= i < c1.len() implies (#[trigger] c1[i]).base_params@ == c2[i].base_params@
            && c1[i].ext_params@ == c2[i].ext_params@ by {
        if i < c0.len() {
            assert(c1[i] == c0.subrange(0, c0.len() as int)[i]);
            assert(c1[i] == c0[i]);
            assert(c2[i] == c0[i]);
        } else {
            let j = i - c0.len() as int;
            lemma_count_eligible_surjective(s0, b0, root, s0.len() as int, j);
            let e = choose|e: int|
                0 <= e < s0.len() && #[trigger] eligible(s0, b0, root, e) && count_eligible(
                    s0,
                    b0,
                    root,
                    e,
                ) == j;
            assert(entity_augmented(s0, b0, c0.len() as int, root, d, s1, c1, e));
            assert(entity_augmented(s0, b0, c0.len() as int, root, d, s2, c2, e));
        }
    }
}

/// One-shot reaction to the readiness signal: the first time the tracked
/// load is seen ready, run one augmentation pass and consume the signal;
/// otherwise change nothing. Safe to invoke every scheduling tick.
pub fn augment_when_ready(
    tracker: &mut LoadTracker,
    h: LoadHandle,
    scene: &mut SceneGraph,
    store: &mut MaterialStore,
    root: usize,
    defaults: &ExtensionParams,
) -> (res: Option<AugmentReport>)
    requires
        old(tracker).valid_handle(h),
        old(scene).wf(),
        root < old(scene).entities@.len(),
        old(store).wf(),
        defaults.wf(),
    ensures
        final(tracker).names@ == old(tracker).names@,
        final(scene).wf(),
        final(store).wf(),
        match res {
            Some(rep) => {
                &&& old(tracker).entries@[h.id as int].status is Ready
                &&& !old(tracker).entries@[h.id as int].ready_taken
                &&& final(tracker).entries@ == old(tracker).entries@.update(
                    h.id as int,
                    LoadEntry {
                        status: old(tracker).entries@[h.id as int].status,
                        ready_taken: true,
                    },
                )
                &&& augment_post(
                    old(scene).entities@,
                    old(store).bases@,
                    old(store).composites@,
                    root as int,
                    defaults.params@,
                    final(scene).entities@,
                    final(store).bases@,
                    final(store).composites@,
                    rep,
                )
            },
            None => {
                &&& !(old(tracker).entries@[h.id as int].status is Ready && !old(
                    tracker,
                ).entries@[h.id as int].ready_taken)
                &&& final(tracker).entries@ == old(tracker).entries@
                &&& final(scene).entities@ == old(scene).entities@
                &&& final(store).bases@ == old(store).bases@
                &&& final(store).composites@ == old(store).composites@
            },
        },
{
    if tracker.take_ready_event(h) {
        Some(augment(scene, store, root, defaults))
    } else {
        None
    }
}

} // verus!
