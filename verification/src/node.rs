//! The node's event loop as a state machine: every control message and
//! every network event is turned into the next state and the actions that the
//! surrounding program has to carry out.

use vstd::prelude::*;
use vstd::utf8::encode_utf8;
use crate::directory::PeerDirectory;
use crate::directory::distinct_addrs;
use crate::directory::distinct_ids;
use crate::directory::lookup;
use crate::directory::stored;
use crate::directory::views;
use crate::message::Message;
use crate::message::MessageType;
use crate::message::MessageView;
use crate::peer::Peer;
use crate::peer::PeerView;
use crate::peer::is_multiaddr;
use crate::peer::observed;
use crate::peer::opt_view;
use crate::peer::parses_as_multiaddr;
use crate::text::decimal;
use crate::text::render_decimal;

verus! {

/// The names under which the node keeps its state in the store.
#[derive(Debug, Clone, Copy, PartialEq, Eq, Structural)]
pub enum NodeStateKey {
    /// The key of the node's own secret key.
    NodeLocalKey,
    /// The prefix of the keys of the peer records.
    NodePeersKey,
}

impl NodeStateKey {
    /// The name of the key as it is written to the store.
    pub open spec fn name(self) -> Seq<char> {
        match self {
            NodeStateKey::NodeLocalKey => "NodeLocalKey"@,
            NodeStateKey::NodePeersKey => "NodePeersKey"@,
        }
    }

    /// Renders the key as it is written to the store.
    pub fn to_string(&self) -> (s: String)
        ensures
            s@ == self.name(),
    {
        match self {
            NodeStateKey::NodeLocalKey => String::from_str("NodeLocalKey"),
            NodeStateKey::NodePeersKey => String::from_str("NodePeersKey"),
        }
    }
}

/// The key under which the record of the peer `id` is stored: the peer
/// prefix, a dollar sign, and the identifier.
pub open spec fn peer_key(id: Seq<char>) -> Seq<char> {
    NodeStateKey::NodePeersKey.name() + seq!['$'] + id
}

/// The key under which the record of the peer `id` is stored.
pub fn peer_db_key(id: &str) -> (key: String)
    ensures
        key@ == peer_key(id@),
{
    let mut key = NodeStateKey::NodePeersKey.to_string();
    proof {
        reveal_strlit("$");
    }
    key.append("$");
    key.append(id);
    assert(key@ =~= peer_key(id@)) by {
        assert("$"@ =~= seq!['$']);
    }
    key
}

/// The address on which the node listens: every interface, TCP, the given
/// port, or one that the system chooses (port 0) where none is given.
pub open spec fn listen_addr(port: Option<u16>) -> Seq<char> {
    "/ip4/0.0.0.0/tcp/"@ + decimal(
        match port {
            Some(p) => p as nat,
            None => 0,
        },
    )
}

/// The address on which the node listens.
pub fn listen_address(port: Option<u16>) -> (addr: String)
    ensures
        addr@ == listen_addr(port),
{
    let p: u16 = match port {
        Some(p) => p,
        None => 0,
    };
    let mut addr = String::from_str("/ip4/0.0.0.0/tcp/");
    let digits = render_decimal(p as u32);
    addr.append(digits.as_str());
    addr
}

/// The name of the one topic on which the node broadcasts.
pub fn broadcast_topic() -> (topic: String)
    ensures
        topic@ == "chat"@,
{
    String::from_str("chat")
}

/// How the node is to listen and whom it is to dial first.
#[derive(Debug, Clone)]
pub struct NodeBehaviourOptions {
    /// The port to listen on; `None` leaves the choice to the system.
    pub port: Option<u16>,
    /// The address of a node to dial at startup.
    pub bootnode: Option<String>,
}

/// Where the node stands in its life.
#[derive(Debug, Clone, Copy, PartialEq, Eq, Structural)]
pub enum NodePhase {
    Starting,
    Listening,
    Running,
    Stopping,
    Stopped,
}

/// Why the node could not start or why its loop ended early.
#[derive(Debug, Clone, Copy, PartialEq, Eq, Structural)]
pub enum NodeError {
    /// The configured bootstrap address is not a network address.
    InvalidBootnode,
    /// No listener could be bound.
    Bind,
    /// The control channel was closed under the running loop.
    ChannelClosed,
    /// The call does not fit the phase in which the node is.
    WrongPhase,
}

/// A peer seen at an address, by discovery or by an established connection.
#[derive(Debug, Clone, PartialEq, Eq)]
pub struct Sighting {
    pub peer: String,
    pub addr: String,
}

/// A peer whose discovery entry ran out. `reachable` says whether the
/// protocol stack still reports the peer as reachable by other means.
#[derive(Debug, Clone, PartialEq, Eq)]
pub struct Expiry {
    pub peer: String,
    pub reachable: bool,
}

/// What the protocol stack reports to the event loop.
#[derive(Debug, Clone, PartialEq, Eq)]
pub enum NodeEvent {
    /// The listener has a new address.
    NewListenAddr { addr: String },
    /// A broadcast message arrived.
    Received { source: String, data: Vec<u8> },
    /// The liveness protocol heard from a peer.
    Ping { peer: String },
    /// Local discovery found peers.
    Discovered { peers: Vec<Sighting> },
    /// Discovery entries ran out.
    Expired { peers: Vec<Expiry> },
    /// A connection to a peer was established.
    ConnectionEstablished { peer: String, addr: String },
    /// Any other event of the transport.
    Other,
}

/// What the event loop waits for: a control message, or the end of the
/// control channel (`None`); or an event of the protocol stack.
#[derive(Debug, Clone)]
pub enum NodeInput {
    Control { message: Option<Message> },
    Network { event: NodeEvent },
}

/// What the surrounding program has to do for the node.
#[derive(Debug, Clone, PartialEq, Eq)]
pub enum NodeAction {
    /// Dial the address.
    Dial { addr: String },
    /// Bind a listener on the address.
    Listen { addr: String },
    /// Publish the bytes on the broadcast topic.
    Publish { data: Vec<u8> },
    /// Add the peer to the view of the broadcast protocol.
    AddToView { peer: String },
    /// Remove the peer from the view of the broadcast protocol.
    RemoveFromView { peer: String },
    /// Write the record to the store under the key.
    Persist { key: String, record: Peer },
    /// Hand a received broadcast to whoever observes the node.
    Deliver { source: String, data: Vec<u8> },
    /// Tell the lifecycle hooks that a peer was seen.
    NotifyPeerConnection { peer: String, addr: String },
    /// Tell the lifecycle hooks that the loop has ended.
    NotifyStopped,
}

/// One thing learned about one peer.
pub enum Observation {
    /// The peer was seen at the address.
    Seen { peer: Seq<char>, addr: Seq<char> },
    /// The peer's discovery entry ran out.
    Lost { peer: Seq<char>, reachable: bool },
}

/// The mathematical content of a [`NodeEvent`].
pub enum EventView {
    NewListenAddr { addr: Seq<char> },
    Received { source: Seq<char>, data: Seq<u8> },
    Ping { peer: Seq<char> },
    Discovered { peers: Seq<Observation> },
    Expired { peers: Seq<Observation> },
    ConnectionEstablished { peer: Seq<char>, addr: Seq<char> },
    Other,
}

/// The mathematical content of a [`NodeInput`].
pub enum InputView {
    Control { message: Option<MessageView> },
    Network { event: EventView },
}

/// The mathematical content of a [`NodeAction`].
pub enum ActionView {
    Dial { addr: Seq<char> },
    Listen { addr: Seq<char> },
    Publish { data: Seq<u8> },
    AddToView { peer: Seq<char> },
    RemoveFromView { peer: Seq<char> },
    Persist { key: Seq<char>, record: PeerView },
    Deliver { source: Seq<char>, data: Seq<u8> },
    NotifyPeerConnection { peer: Seq<char>, addr: Seq<char> },
    NotifyStopped,
}

impl View for Sighting {
    type V = Observation;

    open spec fn view(&self) -> Observation {
        Observation::Seen { peer: self.peer@, addr: self.addr@ }
    }
}

impl View for Expiry {
    type V = Observation;

    open spec fn view(&self) -> Observation {
        Observation::Lost { peer: self.peer@, reachable: self.reachable }
    }
}

/// What a list of sightings says, in order.
pub open spec fn sightings(items: Seq<Sighting>) -> Seq<Observation> {
    items.map_values(|s: Sighting| s@)
}

/// What a list of expiries says, in order.
pub open spec fn expiries(items: Seq<Expiry>) -> Seq<Observation> {
    items.map_values(|x: Expiry| x@)
}

impl View for NodeEvent {
    type V = EventView;

    open spec fn view(&self) -> EventView {
        match *self {
            NodeEvent::NewListenAddr { addr } => EventView::NewListenAddr { addr: addr@ },
            NodeEvent::Received { source, data } => EventView::Received {
                source: source@,
                data: data@,
            },
            NodeEvent::Ping { peer } => EventView::Ping { peer: peer@ },
            NodeEvent::Discovered { peers } => EventView::Discovered { peers: sightings(peers@) },
            NodeEvent::Expired { peers } => EventView::Expired { peers: expiries(peers@) },
            NodeEvent::ConnectionEstablished { peer, addr } => EventView::ConnectionEstablished {
                peer: peer@,
                addr: addr@,
            },
            NodeEvent::Other => EventView::Other,
        }
    }
}

impl View for NodeInput {
    type V = InputView;

    open spec fn view(&self) -> InputView {
        match *self {
            NodeInput::Control { message } => InputView::Control {
                message: match message {
                    Some(m) => Some(m@),
                    None => None,
                },
            },
            NodeInput::Network { event } => InputView::Network { event: event@ },
        }
    }
}

impl View for NodeAction {
    type V = ActionView;

    open spec fn view(&self) -> ActionView {
        match *self {
            NodeAction::Dial { addr } => ActionView::Dial { addr: addr@ },
            NodeAction::Listen { addr } => ActionView::Listen { addr: addr@ },
            NodeAction::Publish { data } => ActionView::Publish { data: data@ },
            NodeAction::AddToView { peer } => ActionView::AddToView { peer: peer@ },
            NodeAction::RemoveFromView { peer } => ActionView::RemoveFromView { peer: peer@ },
            NodeAction::Persist { key, record } => ActionView::Persist {
                key: key@,
                record: record@,
            },
            NodeAction::Deliver { source, data } => ActionView::Deliver {
                source: source@,
                data: data@,
            },
            NodeAction::NotifyPeerConnection { peer, addr } => ActionView::NotifyPeerConnection {
                peer: peer@,
                addr: addr@,
            },
            NodeAction::NotifyStopped => ActionView::NotifyStopped,
        }
    }
}

/// The contents of a list of actions, in order.
pub open spec fn action_views(actions: Seq<NodeAction>) -> Seq<ActionView> {
    actions.map_values(|a: NodeAction| a@)
}

/// Joining two lists of actions joins their contents.
pub proof fn lemma_action_views_concat(a: Seq<NodeAction>, b: Seq<NodeAction>)
    ensures
        action_views(a + b) == action_views(a) + action_views(b),
{
    assert(action_views(a + b) =~= action_views(a) + action_views(b));
}

/// The directory after one observation: a sighting is merged into the
/// peer's record, which is made if there was none; an expiry marks the
/// record as disconnected and leaves an unknown peer unknown.
pub open spec fn applied(e: Seq<PeerView>, o: Observation) -> Seq<PeerView> {
    match o {
        Observation::Seen { peer, addr } => stored(e, observed(lookup(e, peer), peer, addr)),
        Observation::Lost { peer, reachable } => match lookup(e, peer) {
            Some(p) => stored(e, p.expired()),
            None => e,
        },
    }
}

/// The actions that one observation asks for. A sighting: the hooks are
/// told, the merged record is written, the peer joins the broadcast view.
/// An expiry: the record, if there is one, is written as disconnected, and
/// the peer leaves the broadcast view unless it is still reachable.
pub open spec fn emitted(e: Seq<PeerView>, o: Observation) -> Seq<ActionView> {
    match o {
        Observation::Seen { peer, addr } => seq![
            ActionView::NotifyPeerConnection { peer, addr },
            ActionView::Persist { key: peer_key(peer), record: observed(lookup(e, peer), peer, addr) },
            ActionView::AddToView { peer },
        ],
        Observation::Lost { peer, reachable } => {
            let written = match lookup(e, peer) {
                Some(p) => seq![ActionView::Persist { key: peer_key(peer), record: p.expired() }],
                None => Seq::<ActionView>::empty(),
            };
            if reachable {
                written
            } else {
                written.push(ActionView::RemoveFromView { peer })
            }
        },
    }
}

/// The directory after a run of observations, taken one at a time.
pub open spec fn applied_all(e: Seq<PeerView>, obs: Seq<Observation>) -> Seq<PeerView>
    decreases obs.len(),
{
    if obs.len() == 0 {
        e
    } else {
        applied(applied_all(e, obs.drop_last()), obs.last())
    }
}

/// The actions that a run of observations asks for, in order.
pub open spec fn emitted_all(e: Seq<PeerView>, obs: Seq<Observation>) -> Seq<ActionView>
    decreases obs.len(),
{
    if obs.len() == 0 {
        Seq::empty()
    } else {
        emitted_all(e, obs.drop_last()) + emitted(applied_all(e, obs.drop_last()), obs.last())
    }
}

/// What an event says about peers.
pub open spec fn observations(ev: EventView) -> Seq<Observation> {
    match ev {
        EventView::Discovered { peers } => peers,
        EventView::Expired { peers } => peers,
        EventView::ConnectionEstablished { peer, addr } => seq![Observation::Seen { peer, addr }],
        _ => Seq::empty(),
    }
}

/// What an event hands to the observers of the node: a received broadcast.
pub open spec fn delivered(ev: EventView) -> Seq<ActionView> {
    match ev {
        EventView::Received { source, data } => seq![ActionView::Deliver { source, data }],
        _ => Seq::empty(),
    }
}

/// One dial for each address, in order.
pub open spec fn dials(addrs: Seq<Seq<char>>) -> Seq<ActionView> {
    addrs.map_values(|a: Seq<char>| ActionView::Dial { addr: a })
}

/// The dials with which the node tries to reach every peer it knows: for
/// each record in turn, one dial for each of its addresses. The status of a
/// record plays no part.
pub open spec fn redials(e: Seq<PeerView>) -> Seq<ActionView>
    decreases e.len(),
{
    if e.len() == 0 {
        Seq::empty()
    } else {
        redials(e.drop_last()) + dials(e.last().addrs)
    }
}

/// The dial of the bootstrap address, where one is configured.
pub open spec fn bootstrap_dial(bootnode: Option<Seq<char>>) -> Seq<ActionView> {
    match bootnode {
        Some(addr) => seq![ActionView::Dial { addr }],
        None => Seq::empty(),
    }
}

/// The mathematical content of a [`Node`].
pub struct NodeModel {
    pub phase: NodePhase,
    pub port: Option<u16>,
    pub bootnode: Option<Seq<char>>,
    pub directory: Seq<PeerView>,
    pub failure: Option<NodeError>,
}

/// Starting the node. In any phase but `Starting` nothing happens. With a
/// bootstrap address that is no network address the node fails for good.
/// Otherwise it asks for the bootstrap dial, the redials and the listener,
/// and waits for the listener.
pub open spec fn started(m: NodeModel, bootnode_valid: bool) -> (
    NodeModel,
    Result<Seq<ActionView>, NodeError>,
) {
    if m.phase != NodePhase::Starting {
        (m, Err(NodeError::WrongPhase))
    } else if m.bootnode is Some && !bootnode_valid {
        (
            NodeModel {
                phase: NodePhase::Stopped,
                failure: Some(NodeError::InvalidBootnode),
                ..m
            },
            Err(NodeError::InvalidBootnode),
        )
    } else {
        (
            NodeModel { phase: NodePhase::Listening, ..m },
            Ok(
                bootstrap_dial(m.bootnode) + redials(m.directory) + seq![
                    ActionView::Listen { addr: listen_addr(m.port) },
                ],
            ),
        )
    }
}

/// The answer to the request for a listener. With a listener the node
/// runs; without one it fails for good.
pub open spec fn bound(m: NodeModel, ok: bool) -> (NodeModel, Result<(), NodeError>) {
    if m.phase != NodePhase::Listening {
        (m, Err(NodeError::WrongPhase))
    } else if ok {
        (NodeModel { phase: NodePhase::Running, ..m }, Ok(()))
    } else {
        (
            NodeModel { phase: NodePhase::Stopped, failure: Some(NodeError::Bind), ..m },
            Err(NodeError::Bind),
        )
    }
}

/// One input taken by the running loop. A broadcast request is published
/// once; a stop request, or the end of the control channel, puts the node
/// into `Stopping`; an event is merged into the directory. A node that is
/// not running takes no input: nothing changes and nothing is asked for.
pub open spec fn handled(m: NodeModel, input: InputView) -> (NodeModel, Seq<ActionView>) {
    if m.phase != NodePhase::Running {
        (m, Seq::empty())
    } else {
        match input {
            InputView::Control { message: Some(msg) } => match msg.type_ {
                MessageType::Text => (
                    m,
                    seq![ActionView::Publish { data: encode_utf8(msg.message) }],
                ),
                MessageType::Stop => (NodeModel { phase: NodePhase::Stopping, ..m }, Seq::empty()),
            },
            InputView::Control { message: None } => (
                NodeModel {
                    phase: NodePhase::Stopping,
                    failure: Some(NodeError::ChannelClosed),
                    ..m
                },
                Seq::empty(),
            ),
            InputView::Network { event } => (
                NodeModel { directory: applied_all(m.directory, observations(event)), ..m },
                emitted_all(m.directory, observations(event)) + delivered(event),
            ),
        }
    }
}

/// The end of the loop: a node that is stopping tells the hooks, once, and
/// is stopped.
pub open spec fn finished(m: NodeModel) -> (NodeModel, Seq<ActionView>) {
    if m.phase == NodePhase::Stopping {
        (NodeModel { phase: NodePhase::Stopped, ..m }, seq![ActionView::NotifyStopped])
    } else {
        (m, Seq::empty())
    }
}

/// One turn of the loop: the input is taken, and the loop ends if that
/// input asked for it.
pub open spec fn stepped(m: NodeModel, input: InputView) -> (NodeModel, Seq<ActionView>) {
    let (m1, first) = handled(m, input);
    let (m2, last) = finished(m1);
    (m2, first + last)
}

/// A node that can be started and then hands out what it needs done.
pub trait NodeBehaviour {
    /// What must hold of the node for it to be started.
    spec fn startable(&self) -> bool;

    /// Starts the node and returns what it needs done first.
    fn start(&mut self) -> (r: Result<Vec<NodeAction>, NodeError>)
        requires
            old(self).startable(),
    ;
}

/// The node: its phase, its configuration and its directory of peers.
#[derive(Debug, Clone)]
pub struct Node {
    phase: NodePhase,
    port: Option<u16>,
    bootnode: Option<String>,
    directory: PeerDirectory,
    failure: Option<NodeError>,
}

impl View for Node {
    type V = NodeModel;

    closed spec fn view(&self) -> NodeModel {
        NodeModel {
            phase: self.phase,
            port: self.port,
            bootnode: match self.bootnode {
                Some(b) => Some(b@),
                None => None,
            },
            directory: self.directory.entries(),
            failure: self.failure,
        }
    }
}

/// Whether the result of an operation is what the model says.
pub open spec fn same_outcome(
    got: Result<Vec<NodeAction>, NodeError>,
    want: Result<Seq<ActionView>, NodeError>,
) -> bool {
    match got {
        Ok(actions) => want == Ok::<Seq<ActionView>, NodeError>(action_views(actions@)),
        Err(e) => want == Err::<Seq<ActionView>, NodeError>(e),
    }
}

impl Node {
    /// The directory holds one record per peer, each address once.
    pub open spec fn wf(&self) -> bool {
        distinct_ids(self@.directory) && distinct_addrs(self@.directory)
    }

    /// A node in phase `Starting` that knows the peers of `directory`.
    pub fn new(directory: PeerDirectory, opts: NodeBehaviourOptions) -> (node: Node)
        requires
            directory.wf(),
        ensures
            node.wf(),
            node@ == (NodeModel {
                phase: NodePhase::Starting,
                port: opts.port,
                bootnode: match opts.bootnode {
                    Some(b) => Some(b@),
                    None => None,
                },
                directory: directory.entries(),
                failure: None,
            }),
    {
        Node {
            phase: NodePhase::Starting,
            port: opts.port,
            bootnode: opts.bootnode,
            directory,
            failure: None,
        }
    }

    /// The phase in which the node is.
    pub fn phase(&self) -> (p: NodePhase)
        ensures
            p == self@.phase,
    {
        self.phase
    }

    /// Why the node failed, if it did.
    pub fn failure(&self) -> (f: Option<NodeError>)
        ensures
            f == self@.failure,
    {
        self.failure
    }

    /// Whether the loop has ended.
    pub fn is_stopped(&self) -> (b: bool)
        ensures
            b == (self@.phase == NodePhase::Stopped),
    {
        self.phase == NodePhase::Stopped
    }

    /// The record kept for the peer `id`, if any.
    pub fn get_peer(&self, id: &str) -> (found: Option<Peer>)
        requires
            self.wf(),
        ensures
            opt_view(found) == lookup(self@.directory, id@),
            found matches Some(p) ==> p.wf(),
    {
        self.directory.get_peer(id)
    }

    /// Every record of the directory.
    pub fn list_peers(&self) -> (all: Vec<Peer>)
        requires
            self.wf(),
        ensures
            views(all@) == self@.directory,
            forall|i: int| 0 <= i < all@.len() ==> (#[trigger] all@[i]).wf(),
    {
        self.directory.list_peers()
    }

    /// Takes in that the peer `id` was seen at `addr`.
    fn peer_connected(&mut self, id: &str, addr: &str) -> (actions: Vec<NodeAction>)
        requires
            old(self).wf(),
        ensures
            final(self).wf(),
            final(self)@ == (NodeModel {
                directory: applied(
                    old(self)@.directory,
                    Observation::Seen { peer: id@, addr: addr@ },
                ),
                ..old(self)@
            }),
            action_views(actions@) == emitted(
                old(self)@.directory,
                Observation::Seen { peer: id@, addr: addr@ },
            ),
    {
        let existing = self.directory.get_peer(id);
        let merged = Peer::observe(existing, id, addr);
        let mut actions: Vec<NodeAction> = Vec::new();
        actions.push(
            NodeAction::NotifyPeerConnection {
                peer: String::from_str(id),
                addr: String::from_str(addr),
            },
        );
        actions.push(NodeAction::Persist { key: peer_db_key(id), record: merged.copy() });
        actions.push(NodeAction::AddToView { peer: String::from_str(id) });
        self.directory.upsert_peer(merged);
        assert(action_views(actions@) =~= emitted(
            old(self)@.directory,
            Observation::Seen { peer: id@, addr: addr@ },
        ));
        actions
    }

    /// Takes in that the discovery entry of the peer `id` ran out.
    fn peer_disconnected(&mut self, id: &str, reachable: bool) -> (actions: Vec<NodeAction>)
        requires
            old(self).wf(),
        ensures
            final(self).wf(),
            final(self)@ == (NodeModel {
                directory: applied(
                    old(self)@.directory,
                    Observation::Lost { peer: id@, reachable },
                ),
                ..old(self)@
            }),
            action_views(actions@) == emitted(
                old(self)@.directory,
                Observation::Lost { peer: id@, reachable },
            ),
    {
        let mut actions: Vec<NodeAction> = Vec::new();
        match self.directory.get_peer(id) {
            Some(p) => {
                let p = p.expire();
                actions.push(NodeAction::Persist { key: peer_db_key(id), record: p.copy() });
                self.directory.upsert_peer(p);
            },
            None => {},
        }
        if !reachable {
            actions.push(NodeAction::RemoveFromView { peer: String::from_str(id) });
        }
        assert(action_views(actions@) =~= emitted(
            old(self)@.directory,
            Observation::Lost { peer: id@, reachable },
        ));
        actions
    }

    /// Takes in a list of sightings, one after the other.
    fn peers_discovered(&mut self, peers: &Vec<Sighting>) -> (actions: Vec<NodeAction>)
        requires
            old(self).wf(),
        ensures
            final(self).wf(),
            final(self)@ == (NodeModel {
                directory: applied_all(old(self)@.directory, sightings(peers@)),
                ..old(self)@
            }),
            action_views(actions@) == emitted_all(old(self)@.directory, sightings(peers@)),
    {
        let ghost m0 = self@;
        let ghost e0 = self@.directory;
        let ghost obs = sightings(peers@);
        let mut actions: Vec<NodeAction> = Vec::new();
        assert(action_views(actions@) =~= Seq::<ActionView>::empty());
        let mut i: usize = 0;
        while i < peers.len()
            invariant
                i <= peers@.len(),
                obs == sightings(peers@),
                self.wf(),
                self@ == (NodeModel { directory: applied_all(e0, obs.take(i as int)), ..m0 }),
                action_views(actions@) == emitted_all(e0, obs.take(i as int)),
            decreases peers@.len() - i,
        {
            proof {
                assert(obs.take(i + 1).drop_last() =~= obs.take(i as int));
                assert(obs.take(i + 1).last() == peers@[i as int]@);
            }
            let mut more = self.peer_connected(peers[i].peer.as_str(), peers[i].addr.as_str());
            proof {
                lemma_action_views_concat(actions@, more@);
            }
            actions.append(&mut more);
            i += 1;
        }
        assert(obs.take(i as int) =~= obs);
        actions
    }

    /// Takes in a list of expiries, one after the other.
    fn peers_expired(&mut self, peers: &Vec<Expiry>) -> (actions: Vec<NodeAction>)
        requires
            old(self).wf(),
        ensures
            final(self).wf(),
            final(self)@ == (NodeModel {
                directory: applied_all(old(self)@.directory, expiries(peers@)),
                ..old(self)@
            }),
            action_views(actions@) == emitted_all(old(self)@.directory, expiries(peers@)),
    {
        let ghost m0 = self@;
        let ghost e0 = self@.directory;
        let ghost obs = expiries(peers@);
        let mut actions: Vec<NodeAction> = Vec::new();
        assert(action_views(actions@) =~= Seq::<ActionView>::empty());
        let mut i: usize = 0;
        while i < peers.len()
            invariant
                i <= peers@.len(),
                obs == expiries(peers@),
                self.wf(),
                self@ == (NodeModel { directory: applied_all(e0, obs.take(i as int)), ..m0 }),
                action_views(actions@) == emitted_all(e0, obs.take(i as int)),
            decreases peers@.len() - i,
        {
            proof {
                assert(obs.take(i + 1).drop_last() =~= obs.take(i as int));
                assert(obs.take(i + 1).last() == peers@[i as int]@);
            }
            let mut more = self.peer_disconnected(peers[i].peer.as_str(), peers[i].reachable);
            proof {
                lemma_action_views_concat(actions@, more@);
            }
            actions.append(&mut more);
            i += 1;
        }
        assert(obs.take(i as int) =~= obs);
        actions
    }

    /// One dial for each address of the record.
    fn dial(peer: &Peer, actions: &mut Vec<NodeAction>)
        ensures
            action_views(final(actions)@) == action_views(old(actions)@) + dials(peer@.addrs),
    {
        let ghost before = action_views(actions@);
        let mut j: usize = 0;
        while j < peer.addrs.len()
            invariant
                j <= peer.addrs@.len(),
                action_views(actions@) == before + dials(peer@.addrs.take(j as int)),
            decreases peer.addrs@.len() - j,
        {
            let addr = peer.addrs.get(j).clone();
            let ghost prev = actions@;
            actions.push(NodeAction::Dial { addr });
            assert(action_views(actions@) =~= before + dials(peer@.addrs.take(j + 1))) by {
                assert(action_views(actions@) =~= action_views(prev).push(
                    ActionView::Dial { addr: peer@.addrs[j as int] },
                ));
                assert(dials(peer@.addrs.take(j + 1)) =~= dials(peer@.addrs.take(j as int)).push(
                    ActionView::Dial { addr: peer@.addrs[j as int] },
                ));
            }
            j += 1;
        }
        assert(peer@.addrs.take(j as int) =~= peer@.addrs);
    }
}

impl Node {
    /// Starts the node, given whether its bootstrap address is a network
    /// address. The model function [`started`] says what comes of it.
    pub fn start_with(&mut self, bootnode_valid: bool) -> (r: Result<Vec<NodeAction>, NodeError>)
        requires
            old(self).wf(),
        ensures
            final(self).wf(),
            final(self)@ == started(old(self)@, bootnode_valid).0,
            same_outcome(r, started(old(self)@, bootnode_valid).1),
    {
        if self.phase != NodePhase::Starting {
            return Err(NodeError::WrongPhase);
        }
        let mut actions: Vec<NodeAction> = Vec::new();
        match &self.bootnode {
            Some(addr) => {
                if !bootnode_valid {
                    self.phase = NodePhase::Stopped;
                    self.failure = Some(NodeError::InvalidBootnode);
                    return Err(NodeError::InvalidBootnode);
                }
                actions.push(NodeAction::Dial { addr: addr.clone() });
            },
            None => {},
        }
        assert(action_views(actions@) =~= bootstrap_dial(self@.bootnode));
        let peers = self.directory.list_peers();
        let ghost e = self@.directory;
        let ghost head = bootstrap_dial(self@.bootnode);
        let mut i: usize = 0;
        while i < peers.len()
            invariant
                i <= peers@.len(),
                views(peers@) == e,
                action_views(actions@) == head + redials(e.take(i as int)),
            decreases peers@.len() - i,
        {
            proof {
                assert(e.take(i + 1).drop_last() =~= e.take(i as int));
                assert(e.take(i + 1).last() == peers@[i as int]@);
            }
            Node::dial(&peers[i], &mut actions);
            i += 1;
        }
        assert(e.take(i as int) =~= e);
        let ghost prev = actions@;
        actions.push(NodeAction::Listen { addr: listen_address(self.port) });
        assert(action_views(actions@) =~= head + redials(e) + seq![
            ActionView::Listen { addr: listen_addr(self@.port) },
        ]) by {
            assert(action_views(actions@) =~= action_views(prev).push(
                ActionView::Listen { addr: listen_addr(self@.port) },
            ));
        }
        self.phase = NodePhase::Listening;
        Ok(actions)
    }

    /// Takes in whether the listener was bound: with a listener the node
    /// runs, without one it fails for good.
    pub fn listening(&mut self, ok: bool) -> (r: Result<(), NodeError>)
        requires
            old(self).wf(),
        ensures
            final(self).wf(),
            final(self)@ == bound(old(self)@, ok).0,
            r == bound(old(self)@, ok).1,
    {
        if self.phase != NodePhase::Listening {
            Err(NodeError::WrongPhase)
        } else if ok {
            self.phase = NodePhase::Running;
            Ok(())
        } else {
            self.phase = NodePhase::Stopped;
            self.failure = Some(NodeError::Bind);
            Err(NodeError::Bind)
        }
    }

    /// Takes one input of the running loop and returns the actions it asks
    /// for. The model function [`handled`] says what comes of it.
    pub fn handle(&mut self, input: NodeInput) -> (actions: Vec<NodeAction>)
        requires
            old(self).wf(),
        ensures
            final(self).wf(),
            final(self)@ == handled(old(self)@, input@).0,
            action_views(actions@) == handled(old(self)@, input@).1,
    {
        let mut actions: Vec<NodeAction> = Vec::new();
        assert(action_views(actions@) =~= Seq::<ActionView>::empty());
        if self.phase != NodePhase::Running {
            return actions;
        }
        let ghost e0 = self@.directory;
        match input {
            NodeInput::Control { message: Some(msg) } => {
                match msg.type_ {
                    MessageType::Text => {
                        let data = msg.message.as_str().as_bytes_vec();
                        actions.push(NodeAction::Publish { data });
                        assert(action_views(actions@) =~= seq![
                            ActionView::Publish { data: encode_utf8(msg.message@) },
                        ]);
                    },
                    MessageType::Stop => {
                        self.phase = NodePhase::Stopping;
                    },
                }
            },
            NodeInput::Control { message: None } => {
                self.phase = NodePhase::Stopping;
                self.failure = Some(NodeError::ChannelClosed);
            },
            NodeInput::Network { event } => {
                match event {
                    NodeEvent::Discovered { peers } => {
                        actions = self.peers_discovered(&peers);
                        assert(action_views(actions@) =~= action_views(actions@)
                            + Seq::<ActionView>::empty());
                    },
                    NodeEvent::Expired { peers } => {
                        actions = self.peers_expired(&peers);
                        assert(action_views(actions@) =~= action_views(actions@)
                            + Seq::<ActionView>::empty());
                    },
                    NodeEvent::ConnectionEstablished { peer, addr } => {
                        let ghost o = Observation::Seen { peer: peer@, addr: addr@ };
                        actions = self.peer_connected(peer.as_str(), addr.as_str());
                        proof {
                            let obs = seq![o];
                            let none = obs.drop_last();
                            assert(none.len() == 0);
                            assert(obs.last() == o);
                            assert(applied_all(e0, none) == e0);
                            assert(emitted_all(e0, none) =~= Seq::<ActionView>::empty());
                            assert(emitted_all(e0, obs) =~= emitted(e0, o));
                            assert(action_views(actions@) =~= action_views(actions@)
                                + Seq::<ActionView>::empty());
                        }
                    },
                    NodeEvent::Received { source, data } => {
                        actions.push(NodeAction::Deliver { source, data });
                        assert(action_views(actions@) =~= Seq::<ActionView>::empty() + seq![
                            ActionView::Deliver { source: source@, data: data@ },
                        ]);
                    },
                    NodeEvent::NewListenAddr { addr } => {
                        assert(action_views(actions@) =~= Seq::<ActionView>::empty()
                            + Seq::<ActionView>::empty());
                    },
                    NodeEvent::Ping { peer } => {
                        assert(action_views(actions@) =~= Seq::<ActionView>::empty()
                            + Seq::<ActionView>::empty());
                    },
                    NodeEvent::Other => {
                        assert(action_views(actions@) =~= Seq::<ActionView>::empty()
                            + Seq::<ActionView>::empty());
                    },
                }
            },
        }
        actions
    }

    /// Ends the loop of a node that is stopping: the hooks are to be told,
    /// once, and the node is stopped. In any other phase nothing happens.
    pub fn finish(&mut self) -> (actions: Vec<NodeAction>)
        requires
            old(self).wf(),
        ensures
            final(self).wf(),
            final(self)@ == finished(old(self)@).0,
            action_views(actions@) == finished(old(self)@).1,
    {
        let mut actions: Vec<NodeAction> = Vec::new();
        if self.phase == NodePhase::Stopping {
            self.phase = NodePhase::Stopped;
            actions.push(NodeAction::NotifyStopped);
            assert(action_views(actions@) =~= seq![ActionView::NotifyStopped]);
        } else {
            assert(action_views(actions@) =~= Seq::<ActionView>::empty());
        }
        actions
    }

    /// One turn of the loop: takes the input and, if it asked for the end,
    /// ends the loop. The model function [`stepped`] says what comes of it.
    pub fn step(&mut self, input: NodeInput) -> (actions: Vec<NodeAction>)
        requires
            old(self).wf(),
        ensures
            final(self).wf(),
            final(self)@ == stepped(old(self)@, input@).0,
            action_views(actions@) == stepped(old(self)@, input@).1,
    {
        let mut actions = self.handle(input);
        let mut last = self.finish();
        proof {
            lemma_action_views_concat(actions@, last@);
        }
        actions.append(&mut last);
        actions
    }
}

impl NodeBehaviour for Node {
    open spec fn startable(&self) -> bool {
        self.wf()
    }

    /// Starts the node: checks the bootstrap address, and asks for the
    /// bootstrap dial, one dial for each address of each known peer, and
    /// the listener.
    fn start(&mut self) -> (r: Result<Vec<NodeAction>, NodeError>)
        ensures
            final(self).wf(),
            final(self)@ == started(old(self)@, bootnode_ok(old(self)@.bootnode)).0,
            same_outcome(r, started(old(self)@, bootnode_ok(old(self)@.bootnode)).1),
    {
        let valid = match &self.bootnode {
            Some(addr) => parses_as_multiaddr(addr.as_str()),
            None => true,
        };
        self.start_with(valid)
    }
}

/// Whether the bootstrap address, if one is configured, is a network address.
pub open spec fn bootnode_ok(bootnode: Option<Seq<char>>) -> bool {
    match bootnode {
        Some(addr) => is_multiaddr(addr),
        None => true,
    }
}

} // verus!
