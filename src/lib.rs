//! Host-side core of a progressive GPU ray tracer.
//!
//! - `bounding_box`: coordinate intervals and axis-aligned boxes, with
//!   coordinates held as order keys of their single-precision bits.
//! - `bvh`: the bounding volume hierarchy, built by median splits into a
//!   flat array with parent links.
//! - `material`: the append-only material registry and its handles.
//! - `scene`: depth-first flattening of a scene into GPU records, important
//!   (light-sampled) positions and per-kind GPU identities.
//! - `layout`: everything a scene load derives before upload.
//! - `context`: the integer side of the per-frame uniform block and the
//!   stratified sample cursor.
//! - `scheduler`: the per-frame decision to keep accumulating or restart.
//! - `input`: key press spans.
//! - `gpu`: GPU buffers with the size and usage they were created with.
pub mod bounding_box;
pub mod bvh;
pub mod context;
pub mod gpu;
pub mod input;
pub mod layout;
pub mod material;
pub mod scene;
pub mod scheduler;
