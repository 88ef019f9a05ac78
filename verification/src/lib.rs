//! Verified bookkeeping core of a fixed-timestep rigid-body engine.
//!
//! Everything here is discrete: identifiers, flag words, iteration counts,
//! index pairs, cache lifetimes and the small state machines that decide what
//! the numeric kernels of a simulation are asked to do next. Scalar payloads
//! (normals, impulses, contact points) pass through the containers of this
//! crate as opaque type parameters.

pub mod access;
pub mod body;
pub mod body_index;
pub mod broadphase;
pub mod contact_set;
pub mod frame_clock;
pub mod joint_cache;
pub mod manifold_cache;
pub mod pair_key;
pub mod pipeline;
pub mod settings;
pub mod sleep;
