//! Synchronisation of tilemap chunk data into packed texture bytes, with a
//! size-keyed cache of chunk meshes and a per-tick reconciliation step.

pub mod tile;
pub mod mesh_cache;
pub mod sync;
