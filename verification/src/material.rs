//! Parameter records and the binding-slot layout convention.
//!
//! A material parameter is one 32-bit word (the raw bit pattern the shading
//! program reads from its binding slot). A base material owns the slots below
//! [`BASE_SLOT_LIMIT`]; extension parameters occupy the slots from
//! [`BASE_SLOT_LIMIT`] upward, in declaration order. The layout registry
//! checks that a (base, extension) pair fits this partition, which makes the
//! two slot ranges disjoint.

use vstd::prelude::*;

verus! {

/// First binding slot reserved for extension parameters; a base material may
/// only use slots strictly below this.
pub const BASE_SLOT_LIMIT: u32 = 100;

/// The original, shared visual-parameter record before augmentation.
/// `params[i]` is the word bound at slot `i`.
#[derive(Clone, Debug)]
pub struct BaseMaterial {
    pub params: Vec<u32>,
}

/// Additional shading parameters appended to a base material.
/// `params[i]` is the word bound at slot `BASE_SLOT_LIMIT + i`.
#[derive(Clone, Debug)]
pub struct ExtensionParams {
    pub params: Vec<u32>,
}

/// The merged, independently stored result of base + extension parameters.
/// Base words keep their slots; extension words sit from `BASE_SLOT_LIMIT` up.
#[derive(Clone, Debug)]
pub struct CompositeMaterial {
    pub base_params: Vec<u32>,
    pub ext_params: Vec<u32>,
}

impl BaseMaterial {
    /// The declared base slots all lie below the reserved extension range.
    pub open spec fn wf(self) -> bool {
        self.params@.len() <= BASE_SLOT_LIMIT
    }
}

impl ExtensionParams {
    /// Every declared extension slot number `BASE_SLOT_LIMIT + i` is itself a
    /// representable binding slot.
    pub open spec fn wf(self) -> bool {
        self.params@.len() + BASE_SLOT_LIMIT - 1 <= u32::MAX
    }
}

impl CompositeMaterial {
    pub open spec fn wf(self) -> bool {
        &&& self.base_params@.len() <= BASE_SLOT_LIMIT
        &&& self.ext_params@.len() + BASE_SLOT_LIMIT - 1 <= u32::MAX
    }

    /// The word a shading program reads at `slot`, if that slot is bound.
    pub open spec fn slot_value_spec(self, slot: int) -> Option<u32> {
        if 0 <= slot < self.base_params@.len() {
            Some(self.base_params@[slot])
        } else if BASE_SLOT_LIMIT <= slot < BASE_SLOT_LIMIT + self.ext_params@.len() {
            Some(self.ext_params@[slot - BASE_SLOT_LIMIT])
        } else {
            None
        }
    }

    /// Fetch the word bound at a numeric slot, or `None` for an unbound slot.
    pub fn slot_value(&self, slot: u32) -> (v: Option<u32>)
        ensures
            v == self.slot_value_spec(slot as int),
    {
        if (slot as usize) < self.base_params.len() {
            Some(self.base_params[slot as usize])
        } else if slot >= BASE_SLOT_LIMIT && ((slot - BASE_SLOT_LIMIT) as usize)
            < self.ext_params.len() {
            Some(self.ext_params[(slot - BASE_SLOT_LIMIT) as usize])
        } else {
            None
        }
    }
}

/// The set of binding slots a base material's declared parameters use.
pub open spec fn base_slots(base: BaseMaterial) -> Set<int> {
    Set::new(|s: int| 0 <= s < base.params@.len())
}

/// The set of binding slots an extension record's declared parameters use.
pub open spec fn ext_slots(ext: ExtensionParams) -> Set<int> {
    Set::new(|s: int| BASE_SLOT_LIMIT <= s < BASE_SLOT_LIMIT + ext.params@.len())
}

/// Layout registry check: a (base, extension) pair is accepted exactly when
/// the base stays below the reserved range and every extension slot number is
/// representable.
pub fn layout_accepts(base: &BaseMaterial, ext: &ExtensionParams) -> (ok: bool)
    ensures
        ok == (base.wf() && ext.wf()),
{
    (base.params.len() as u64) <= (BASE_SLOT_LIMIT as u64)
        && (ext.params.len() as u64) <= (u32::MAX - BASE_SLOT_LIMIT + 1) as u64
}

/// Slot non-overlap: a pair the layout registry accepts declares disjoint
/// base and extension slot ranges.
pub proof fn lemma_accepted_layout_slots_disjoint(base: BaseMaterial, ext: ExtensionParams)
    requires
        base.wf(),
    ensures
        base_slots(base).disjoint(ext_slots(ext)),
{
    assert forall|s: int| base_slots(base).contains(s) implies !ext_slots(ext).contains(s) by {
        assert(s < BASE_SLOT_LIMIT);
    }
}

/// Copy a parameter vector word for word.
fn copy_params(src: &Vec<u32>) -> (out: Vec<u32>)
    ensures
        out@ == src@,
{
    let mut out: Vec<u32> = Vec::new();
    let mut i: usize = 0;
    while i < src.len()
        invariant
            i <= src@.len(),
            out@ == src@.subrange(0, i as int),
        decreases src@.len() - i,
    {
        out.push(src[i]);
        i = i + 1;
        proof {
            assert(out@ =~= src@.subrange(0, i as int));
        }
    }
    proof {
        assert(out@ =~= src@);
    }
    out
}

impl CompositeMaterial {
    /// Build a composite material as a defensive copy of the base's current
    /// parameter words plus the caller-supplied extension defaults. The
    /// result shares no storage with its inputs, so later mutation of the
    /// original base material cannot reach it.
    pub fn compose(base: &BaseMaterial, defaults: &ExtensionParams) -> (c: CompositeMaterial)
        ensures
            c.base_params@ == base.params@,
            c.ext_params@ == defaults.params@,
            base.wf() && defaults.wf() ==> c.wf(),
    {
        CompositeMaterial {
            base_params: copy_params(&base.params),
            ext_params: copy_params(&defaults.params),
        }
    }
}

/// Binding contract with the shading program: a composite built over a
/// well-formed base exposes every base word unchanged at its original slot,
/// and every extension word at `BASE_SLOT_LIMIT` plus its declaration index.
pub proof fn lemma_composite_binding_layout(c: CompositeMaterial, base: BaseMaterial,
    ext: ExtensionParams)
    requires
        base.wf(),
        c.base_params@ == base.params@,
        c.ext_params@ == ext.params@,
    ensures
        forall|s: int| 0 <= s < base.params@.len() ==> c.slot_value_spec(s) == Some(
            base.params@[s],
        ),
        forall|s: int|
            BASE_SLOT_LIMIT <= s < BASE_SLOT_LIMIT + ext.params@.len() ==> c.slot_value_spec(s)
                == Some(ext.params@[s - BASE_SLOT_LIMIT]),
{
}

} // verus!
