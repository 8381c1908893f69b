//! What the mappings and decisions of the bridge are for, stated over their
//! inputs and results.

pub mod events;
pub mod flows;
pub mod models;
pub mod replies;
pub mod requests;
pub mod turns;
pub mod values;
