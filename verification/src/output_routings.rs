//! Where the output of each DMX universe goes: a device and a universe
//! on it, set per universe.
use vstd::prelude::*;

use crate::pair_table::{KeyTable, TableKey};

verus! {

impl TableKey for u16 {
    fn same(&self, other: &Self) -> (r: bool) {
        *self == *other
    }

    fn duplicate(&self) -> (r: Self) {
        *self
    }
}

/// The output of one universe: the device (by asset id) and the universe
/// number on it; unset parts use the defaults.
#[derive(Clone, Copy, Debug, PartialEq, Eq, Structural)]
pub struct OutputRouting {
    pub device: Option<u128>,
    pub universe: Option<u16>,
}

impl OutputRouting {
    /// Nothing set.
    pub fn default() -> (r: Self)
        ensures
            r == (OutputRouting { device: None, universe: None }),
    {
        OutputRouting { device: None, universe: None }
    }
}

/// The routings set so far, by universe.
pub struct OutputRoutings {
    pub routings: KeyTable<u16, OutputRouting>,
}

impl OutputRoutings {
    /// No routing set.
    pub fn new() -> (r: Self)
        ensures
            r.routings.well_formed(),
            forall|u: u16| r.routings.spec_get(u) is None,
    {
        OutputRoutings { routings: KeyTable::new() }
    }

    /// The routing of `universe`, stored empty first when there is none.
    pub fn universe_output_routing(&mut self, universe: u16) -> (r: OutputRouting)
        requires
            old(self).routings.well_formed(),
        ensures
            final(self).routings.well_formed(),
            r == match old(self).routings.spec_get(universe) {
                Some(existing) => existing,
                None => OutputRouting { device: None, universe: None },
            },
            final(self).routings.spec_get(universe) == Some(r),
            forall|u: u16| u != universe ==> #[trigger] final(self).routings.spec_get(u) == old(self).routings.spec_get(u),
    {
        match self.routings.get(universe) {
            Some(existing) => existing,
            None => {
                let fresh = OutputRouting::default();
                let _ = self.routings.insert(universe, fresh);
                fresh
            },
        }
    }

    /// Set the routing of `universe`.
    pub fn set_universe_output_routing(&mut self, universe: u16, routing: OutputRouting)
        requires
            old(self).routings.well_formed(),
        ensures
            final(self).routings.well_formed(),
            final(self).routings.spec_get(universe) == Some(routing),
            forall|u: u16| u != universe ==> #[trigger] final(self).routings.spec_get(u) == old(self).routings.spec_get(u),
    {
        let _ = self.routings.insert(universe, routing);
    }
}

} // verus!
