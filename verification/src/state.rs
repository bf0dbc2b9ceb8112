//! What the user marked on pull requests, kept between runs.
use vstd::prelude::*;
use crate::table::{Key, PrTable};

verus! {

/// Pull requests marked done, snoozed until a time (seconds since the
/// epoch), pinned, and read.
pub struct LocalState {
    pub done: PrTable<()>,
    pub snoozed: PrTable<i64>,
    pub pinned: PrTable<()>,
    pub read: PrTable<()>,
}

impl Default for LocalState {
    fn default() -> (r: Self)
        ensures
            r.done.map() == Map::<Key, ()>::empty(),
            r.snoozed.map() == Map::<Key, i64>::empty(),
            r.pinned.map() == Map::<Key, ()>::empty(),
            r.read.map() == Map::<Key, ()>::empty(),
    {
        LocalState { done: PrTable::new(), snoozed: PrTable::new(), pinned: PrTable::new(), read: PrTable::new() }
    }
}

} // verus!
