//! The hooks through which the node tells its surroundings of peers and of
//! its end.

use vstd::prelude::*;
use crate::node::action_views;
use crate::node::applied;
use crate::node::ActionView;
use crate::node::NodeAction;
use crate::node::Observation;
use crate::peer::Peer;
use crate::peer::PeerView;
use crate::state::NodeState;

verus! {

/// One thing that hooks were told.
pub enum Notice {
    /// A peer was seen at an address.
    PeerConnection { peer: Seq<char>, addr: Seq<char> },
    /// The loop of the node has ended.
    Stopped,
}

/// What the surroundings of a node can be told. The node's loop calls the
/// hooks in its own turn: they must come back soon, and must not reach
/// back into the loop.
pub trait NodeLifecycleHooks {
    /// What must hold of the hooks for them to be called, and holds again
    /// after each call.
    spec fn ready(&self) -> bool;

    /// Everything that the hooks were told so far, in order.
    spec fn told(&self) -> Seq<Notice>;

    /// A peer was seen at an address.
    fn on_peer_connection(&mut self, peer_id: &str, addr: &str)
        requires
            old(self).ready(),
        ensures
            final(self).ready(),
            final(self).told() == old(self).told().push(
                Notice::PeerConnection { peer: peer_id@, addr: addr@ },
            ),
    ;

    /// The loop of the node has ended.
    fn on_stopped(&mut self)
        requires
            old(self).ready(),
        ensures
            final(self).ready(),
            final(self).told() == old(self).told().push(Notice::Stopped),
    ;
}

/// What one action tells the hooks: a sighting, the end of the loop, or,
/// for every other action, nothing.
pub open spec fn notice(action: ActionView) -> Seq<Notice> {
    match action {
        ActionView::NotifyPeerConnection { peer, addr } => seq![
            Notice::PeerConnection { peer, addr },
        ],
        ActionView::NotifyStopped => seq![Notice::Stopped],
        _ => Seq::empty(),
    }
}

/// What a list of actions tells the hooks, in order.
pub open spec fn notices(actions: Seq<ActionView>) -> Seq<Notice>
    decreases actions.len(),
{
    if actions.len() == 0 {
        Seq::empty()
    } else {
        notices(actions.drop_last()) + notice(actions.last())
    }
}

/// The hooks of the node itself: they keep the shared state up to date and
/// note that the node has stopped, for the program to act on.
pub struct NodeLifecycle {
    state: NodeState,
    stopped: bool,
    log: Ghost<Seq<Notice>>,
}

impl NodeLifecycle {
    /// The peers that the hooks have been told of.
    pub closed spec fn peers(&self) -> Seq<PeerView> {
        self.state.peers.entries()
    }

    /// Whether the hooks have been told that the node stopped.
    pub closed spec fn stopped(&self) -> bool {
        self.stopped
    }

    /// The shared state is well formed.
    pub closed spec fn wf(&self) -> bool {
        self.state.wf()
    }

    /// Hooks that keep `state` up to date.
    pub fn new(state: NodeState) -> (hooks: NodeLifecycle)
        requires
            state.wf(),
        ensures
            hooks.wf(),
            hooks.peers() == state.peers.entries(),
            !hooks.stopped(),
            hooks.told() == Seq::<Notice>::empty(),
    {
        NodeLifecycle { state, stopped: false, log: Ghost(Seq::empty()) }
    }

    /// The shared state as it stands.
    pub fn state(&self) -> (state: &NodeState)
        ensures
            state.peers.entries() == self.peers(),
            state.wf() == self.wf(),
    {
        &self.state
    }

    /// Whether the node has stopped, so that the program can end.
    pub fn is_stopped(&self) -> (b: bool)
        ensures
            b == self.stopped(),
    {
        self.stopped
    }
}

impl NodeLifecycleHooks for NodeLifecycle {
    open spec fn ready(&self) -> bool {
        self.wf()
    }

    closed spec fn told(&self) -> Seq<Notice> {
        self.log@
    }

    /// Merges the sighting into the shared state, as the node merges it
    /// into its directory.
    fn on_peer_connection(&mut self, peer_id: &str, addr: &str)
        ensures
            final(self).peers() == applied(
                old(self).peers(),
                Observation::Seen { peer: peer_id@, addr: addr@ },
            ),
            final(self).stopped() == old(self).stopped(),
    {
        let existing = self.state.peers.get_peer(peer_id);
        let merged = Peer::observe(existing, peer_id, addr);
        self.state.peers.upsert_peer(merged);
        self.log = Ghost(self.log@.push(Notice::PeerConnection { peer: peer_id@, addr: addr@ }));
    }

    /// Notes that the node has stopped.
    fn on_stopped(&mut self)
        ensures
            final(self).stopped(),
            final(self).peers() == old(self).peers(),
    {
        self.stopped = true;
        self.log = Ghost(self.log@.push(Notice::Stopped));
    }
}

/// Hands the notifications among `actions` to the hooks, in order: each
/// sighting of a peer, and the end of the loop. Other actions are not for
/// the hooks and are passed over.
pub fn notify<H: NodeLifecycleHooks>(hooks: &mut H, actions: &Vec<NodeAction>)
    requires
        old(hooks).ready(),
    ensures
        final(hooks).ready(),
        final(hooks).told() == old(hooks).told() + notices(action_views(actions@)),
{
    let ghost all = action_views(actions@);
    let ghost before = hooks.told();
    let mut i: usize = 0;
    assert(before + notices(all.take(0)) =~= before);
    while i < actions.len()
        invariant
            i <= actions@.len(),
            all == action_views(actions@),
            hooks.ready(),
            hooks.told() == before + notices(all.take(i as int)),
        decreases actions@.len() - i,
    {
        proof {
            assert(all.take(i + 1).drop_last() =~= all.take(i as int));
            assert(all.take(i + 1).last() == actions@[i as int]@);
        }
        let ghost so_far = hooks.told();
        match &actions[i] {
            NodeAction::NotifyPeerConnection { peer, addr } => {
                hooks.on_peer_connection(peer.as_str(), addr.as_str());
            },
            NodeAction::NotifyStopped => {
                hooks.on_stopped();
            },
            _ => {},
        }
        assert(hooks.told() =~= before + notices(all.take(i + 1))) by {
            assert(hooks.told() =~= so_far + notice(actions@[i as int]@));
        }
        i += 1;
    }
    assert(all.take(i as int) =~= all);
}

} // verus!
