//! Migration engine for layered graph stores: layer identifiers, value
//! renumbering maps, adjacency-index remapping, value-string parsing and the
//! resumable store traversal.

mod text;
pub mod consts;
pub mod layer_id;
pub mod mapping;
mod sorting;
pub mod triples;
pub mod values;
pub mod status;
pub mod reachable;
pub mod parent_map;
pub mod store;
pub mod layer;
pub mod decimal;
