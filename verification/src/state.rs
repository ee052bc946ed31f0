//! The state that the node shares with the control plane: a mirror of the
//! peers it has seen.

use vstd::prelude::*;
use crate::directory::PeerDirectory;
use crate::peer::PeerView;

verus! {

/// What the control plane may read of the node.
#[derive(Debug, Clone, PartialEq, Eq)]
pub struct NodeState {
    /// The peers seen so far, one record per identifier.
    pub peers: PeerDirectory,
}

impl NodeState {
    /// The state is well formed when its directory is.
    pub open spec fn wf(&self) -> bool {
        self.peers.wf()
    }

    /// The state of a node that has seen no peer.
    pub fn new() -> (state: NodeState)
        ensures
            state.wf(),
            state.peers.entries() == Seq::<PeerView>::empty(),
    {
        NodeState { peers: PeerDirectory::new() }
    }
}

} // verus!
