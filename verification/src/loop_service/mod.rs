//! The services over the loop tables.

pub mod card_laws;
pub mod coverage;
pub mod edge_laws;
pub mod inbox;
pub mod inbox_laws;
pub mod iteration;
pub mod link;
pub mod memory;
pub mod recall_laws;
pub mod subject;
