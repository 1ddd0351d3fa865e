//! Matchmaking clusters: a level cap and a single-slot waiting queue.

use vstd::prelude::*;

verus! {

/// One matchmaking bucket: the maximum admissible creature level and the
/// creature (if any) waiting in the depth-1 queue.
#[derive(Clone, Copy, PartialEq, Eq, Debug)]
pub struct Cluster {
    pub max_lvl: u8,
    /// Last dragon that is waiting for battle in this cluster.
    pub waiting_for_battle: Option<u64>,
}

/// The versioned on-store shape of a cluster record.
#[derive(Clone, Copy, Debug)]
pub enum VCluster {
    V1(Cluster),
}

impl VCluster {
    pub open spec fn value(self) -> Cluster {
        match self {
            VCluster::V1(c) => c,
        }
    }
}

impl From<VCluster> for Cluster {
    fn from(c: VCluster) -> (r: Cluster)
        ensures
            r == c.value(),
    {
        match c {
            VCluster::V1(c) => c,
        }
    }
}

impl vstd::std_specs::convert::FromSpecImpl<VCluster> for Cluster {
    open spec fn obeys_from_spec() -> bool {
        true
    }

    open spec fn from_spec(c: VCluster) -> Cluster {
        c.value()
    }
}

} // verus!
