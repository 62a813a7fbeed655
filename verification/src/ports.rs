//! The ports of daemons.
use vstd::prelude::*;

use crate::config::clone_numbers;
use crate::daemon::{DaemonId, IdView};
use crate::idmap::IdMap;

verus! {

/// The ports that daemons are known to listen on.
#[derive(Debug)]
pub struct PortMap {
    ports: IdMap<Vec<u16>>,
}

impl View for PortMap {
    type V = Map<IdView, Seq<u16>>;

    closed spec fn view(&self) -> Map<IdView, Seq<u16>> {
        self.ports@.map_values(|ports: Vec<u16>| ports@)
    }
}

impl PortMap {
    pub fn new() -> (r: Self)
        ensures
            r@ == Map::<IdView, Seq<u16>>::empty(),
    {
        let r = PortMap { ports: IdMap::new() };
        assert(r@ =~= Map::<IdView, Seq<u16>>::empty());
        r
    }

    /// The ports of a daemon, where they are known.
    pub fn get(&self, id: &DaemonId) -> (r: Option<Vec<u16>>)
        ensures
            match r {
                Some(ports) => self@.dom().contains(id@) && ports@ == self@[id@],
                None => !self@.dom().contains(id@),
            },
    {
        match self.ports.get(id) {
            Some(ports) => Some(clone_numbers(ports)),
            None => None,
        }
    }

    /// Notes the ports of a daemon, in place of what was known before.
    pub fn insert(&mut self, id: &DaemonId, ports: Vec<u16>)
        ensures
            final(self)@ == old(self)@.insert(id@, ports@),
    {
        self.ports.insert(id, ports);
        assert(self@ =~= old(self)@.insert(id@, ports@));
    }
}

} // verus!
