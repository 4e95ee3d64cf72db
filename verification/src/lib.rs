//! The flow tree of a layout engine: flows with their shared base state, the
//! traversals that run the reflow phases over a tree of flows, and the
//! bookkeeping for floats, overflow and out-of-flow descendants.

pub mod computed_values;
pub mod containing_block;
pub mod context;
pub mod display_list;
pub mod dom_token_list;
pub mod dump;
pub mod flags;
pub mod floated_descendants;
pub mod flow;
pub mod flow_tree;
pub mod fragment;
pub mod geometry;
pub mod incremental;
pub mod model;
pub mod offset_bubbling;
pub mod overflow;
pub mod parallel;
pub mod reflow;
pub mod static_offsets;
pub mod traversal;
pub mod well_formed;
