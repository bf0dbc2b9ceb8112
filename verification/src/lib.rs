//! Pull-request triage logic: tabs, filters, sorting, review analysis,
//! priority scoring and the key-driven state machine of the terminal client.
use vstd::prelude::*;

pub mod app;
pub mod text;
pub mod gh;
pub mod review;
pub mod clock;
pub mod score;
pub mod table;
pub mod sorting;
pub mod state;
pub mod events;
pub mod control;
pub mod laws;
pub mod ui;
pub mod categories;

verus! {

} // verus!
