//! The views: the machine list, the per-machine detail page, and the root that
//! swaps between them.

pub mod cell;
pub mod detail_laws;
pub mod machine_detail;
pub mod machine_list;
pub mod root;
