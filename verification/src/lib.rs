//! Deferred material augmentation over an asynchronously loaded scene graph.
//!
//! A composite scene asset is loaded in the background; once it is ready, the
//! entity tree instantiated from it is walked and every descendant that still
//! holds a base-only material reference is switched to a freshly stored
//! composite material: a defensive copy of the base material's parameter
//! words plus caller-supplied extension parameters, laid out in disjoint
//! binding-slot ranges.
//!
//! The crate is organised leaf-first:
//! - [`material`]: parameter records, the binding-slot layout convention and
//!   its disjointness guarantee, and composite construction.
//! - [`store`]: the shared material table, keyed by tagged references.
//! - [`scene`]: the entity tree and the descendant walker.
//! - [`tracker`]: the non-blocking load state machine with its one-shot
//!   readiness event.
//! - [`augment`]: the engine that converts eligible descendants exactly once,
//!   with its idempotence and parameter-preservation guarantees.

pub mod augment;
pub mod material;
pub mod scene;
pub mod store;
pub mod tracker;
