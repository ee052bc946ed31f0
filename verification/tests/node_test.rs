use hanode::directory::PeerDirectory;
use hanode::message::Message;
use hanode::node::{
    broadcast_topic, listen_address, peer_db_key, Expiry, Node, NodeAction, NodeBehaviour,
    NodeBehaviourOptions, NodeError, NodeEvent, NodeInput, NodePhase, NodeStateKey, Sighting,
};
use hanode::peer::{Peer, PeerStatus};

const PEER_A: &str = "16Uiu2HAmPeerA";
const PEER_B: &str = "16Uiu2HAmPeerB";
const ADDR_1: &str = "/ip4/192.168.1.10/tcp/4001";
const ADDR_2: &str = "/ip4/192.168.1.10/tcp/4002";
const ADDR_3: &str = "/ip4/10.0.0.7/tcp/4001";

fn running_node(directory: PeerDirectory) -> Node {
    let mut node = Node::new(directory, NodeBehaviourOptions { port: None, bootnode: None });
    node.start().expect("a node without bootnode starts");
    node.listening(true).expect("a bound listener lets the node run");
    node
}

fn seen(peer: &str, addr: &str) -> NodeInput {
    NodeInput::Network {
        event: NodeEvent::Discovered {
            peers: vec![Sighting { peer: peer.to_string(), addr: addr.to_string() }],
        },
    }
}

fn lost(peer: &str, reachable: bool) -> NodeInput {
    NodeInput::Network {
        event: NodeEvent::Expired { peers: vec![Expiry { peer: peer.to_string(), reachable }] },
    }
}

fn addrs_of(node: &Node, peer: &str) -> Vec<String> {
    let mut addrs = node.get_peer(peer).expect("the peer is known").addrs.to_vec();
    addrs.sort();
    addrs
}

#[test]
fn state_keys_are_written_by_name() {
    assert_eq!(NodeStateKey::NodeLocalKey.to_string(), "NodeLocalKey");
    assert_eq!(NodeStateKey::NodePeersKey.to_string(), "NodePeersKey");
}

#[test]
fn peer_key_is_prefix_dollar_id() {
    assert_eq!(peer_db_key(PEER_A), "NodePeersKey$16Uiu2HAmPeerA");
    assert_eq!(peer_db_key(""), "NodePeersKey$");
}

#[test]
fn listen_address_uses_the_port_or_zero() {
    assert_eq!(listen_address(Some(32000)), "/ip4/0.0.0.0/tcp/32000");
    assert_eq!(listen_address(Some(65535)), "/ip4/0.0.0.0/tcp/65535");
    assert_eq!(listen_address(None), "/ip4/0.0.0.0/tcp/0");
}

#[test]
fn broadcast_topic_is_chat() {
    assert_eq!(broadcast_topic(), "chat");
}

#[test]
fn start_without_bootnode_only_listens() {
    let mut node =
        Node::new(PeerDirectory::new(), NodeBehaviourOptions { port: Some(4000), bootnode: None });
    assert_eq!(node.phase(), NodePhase::Starting);
    let actions = node.start().unwrap();
    assert_eq!(actions, vec![NodeAction::Listen { addr: "/ip4/0.0.0.0/tcp/4000".to_string() }]);
    assert_eq!(node.phase(), NodePhase::Listening);
}

#[test]
fn start_dials_the_bootnode_first() {
    let boot = "/ip4/127.0.0.1/tcp/32000".to_string();
    let mut node = Node::new(
        PeerDirectory::new(),
        NodeBehaviourOptions { port: None, bootnode: Some(boot.clone()) },
    );
    let actions = node.start().unwrap();
    assert_eq!(
        actions,
        vec![
            NodeAction::Dial { addr: boot },
            NodeAction::Listen { addr: "/ip4/0.0.0.0/tcp/0".to_string() },
        ]
    );
}

#[test]
fn start_fails_on_a_bootnode_that_is_no_address() {
    let mut node = Node::new(
        PeerDirectory::new(),
        NodeBehaviourOptions { port: None, bootnode: Some("not an address".to_string()) },
    );
    assert_eq!(node.start(), Err(NodeError::InvalidBootnode));
    assert_eq!(node.phase(), NodePhase::Stopped);
    assert_eq!(node.failure(), Some(NodeError::InvalidBootnode));
    assert_eq!(node.start(), Err(NodeError::WrongPhase));
}

#[test]
fn start_with_takes_the_validity_as_given() {
    let mut node = Node::new(
        PeerDirectory::new(),
        NodeBehaviourOptions { port: None, bootnode: Some("/ip4/1.2.3.4/tcp/1".to_string()) },
    );
    assert_eq!(node.start_with(false), Err(NodeError::InvalidBootnode));
    let mut node = Node::new(PeerDirectory::new(), NodeBehaviourOptions { port: None, bootnode: None });
    assert!(node.start_with(false).is_ok());
}

#[test]
fn start_redials_every_address_of_every_peer_whatever_its_status() {
    let mut directory = PeerDirectory::new();
    let a = Peer::observe(Some(Peer::observe(None, PEER_A, ADDR_1)), PEER_A, ADDR_2);
    let b = Peer::observe(None, PEER_B, ADDR_3).expire();
    assert_eq!(b.status, PeerStatus::Disconnected);
    directory.upsert_peer(a);
    directory.upsert_peer(b);
    let mut node = Node::new(directory, NodeBehaviourOptions { port: Some(1), bootnode: None });
    let actions = node.start().unwrap();
    assert_eq!(
        actions,
        vec![
            NodeAction::Dial { addr: ADDR_1.to_string() },
            NodeAction::Dial { addr: ADDR_2.to_string() },
            NodeAction::Dial { addr: ADDR_3.to_string() },
            NodeAction::Listen { addr: "/ip4/0.0.0.0/tcp/1".to_string() },
        ]
    );
}

#[test]
fn a_failed_listener_is_fatal() {
    let mut node = Node::new(PeerDirectory::new(), NodeBehaviourOptions { port: None, bootnode: None });
    assert_eq!(node.listening(true), Err(NodeError::WrongPhase));
    node.start().unwrap();
    assert_eq!(node.listening(false), Err(NodeError::Bind));
    assert_eq!(node.phase(), NodePhase::Stopped);
    assert_eq!(node.failure(), Some(NodeError::Bind));
    assert!(node.step(seen(PEER_A, ADDR_1)).is_empty());
    assert!(node.get_peer(PEER_A).is_none());
}

#[test]
fn a_node_that_is_not_running_takes_no_input() {
    let mut node = Node::new(PeerDirectory::new(), NodeBehaviourOptions { port: None, bootnode: None });
    assert!(node.step(seen(PEER_A, ADDR_1)).is_empty());
    assert!(node.get_peer(PEER_A).is_none());
    assert_eq!(node.phase(), NodePhase::Starting);
}

#[test]
fn a_sighting_makes_a_record_and_asks_for_three_things() {
    let mut node = running_node(PeerDirectory::new());
    let actions = node.step(seen(PEER_A, ADDR_1));
    let record = node.get_peer(PEER_A).unwrap();
    assert_eq!(record.id, PEER_A);
    assert_eq!(record.hostname, "");
    assert_eq!(record.host_mac, "");
    assert_eq!(record.addrs.to_vec(), vec![ADDR_1.to_string()]);
    assert_eq!(record.status, PeerStatus::Connected);
    assert_eq!(
        actions,
        vec![
            NodeAction::NotifyPeerConnection { peer: PEER_A.to_string(), addr: ADDR_1.to_string() },
            NodeAction::Persist { key: "NodePeersKey$16Uiu2HAmPeerA".to_string(), record },
            NodeAction::AddToView { peer: PEER_A.to_string() },
        ]
    );
}

#[test]
fn an_established_connection_counts_as_a_sighting() {
    let mut node = running_node(PeerDirectory::new());
    let actions = node.step(NodeInput::Network {
        event: NodeEvent::ConnectionEstablished {
            peer: PEER_B.to_string(),
            addr: ADDR_3.to_string(),
        },
    });
    assert_eq!(actions.len(), 3);
    let record = node.get_peer(PEER_B).unwrap();
    assert_eq!(record.status, PeerStatus::Connected);
    assert_eq!(record.addrs.to_vec(), vec![ADDR_3.to_string()]);
}

#[test]
fn addresses_accumulate_in_any_order() {
    let orders: Vec<Vec<&str>> = vec![
        vec![ADDR_1, ADDR_2, ADDR_3],
        vec![ADDR_3, ADDR_2, ADDR_1],
        vec![ADDR_2, ADDR_1, ADDR_3, ADDR_1, ADDR_2],
        vec![ADDR_1, ADDR_1, ADDR_3, ADDR_2],
    ];
    for order in orders {
        let mut node = running_node(PeerDirectory::new());
        for addr in order {
            node.step(seen(PEER_A, addr));
            node.step(seen(PEER_B, ADDR_3));
        }
        assert_eq!(
            addrs_of(&node, PEER_A),
            vec![ADDR_3.to_string(), ADDR_1.to_string(), ADDR_2.to_string()]
        );
        assert_eq!(addrs_of(&node, PEER_B), vec![ADDR_3.to_string()]);
    }
}

#[test]
fn addresses_survive_an_expiry() {
    let mut node = running_node(PeerDirectory::new());
    node.step(seen(PEER_A, ADDR_1));
    node.step(lost(PEER_A, false));
    node.step(seen(PEER_A, ADDR_2));
    assert_eq!(addrs_of(&node, PEER_A), vec![ADDR_1.to_string(), ADDR_2.to_string()]);
    assert_eq!(node.get_peer(PEER_A).unwrap().status, PeerStatus::Connected);
}

#[test]
fn status_follows_the_last_event_about_the_peer() {
    let mut node = running_node(PeerDirectory::new());
    node.step(seen(PEER_A, ADDR_1));
    assert_eq!(node.get_peer(PEER_A).unwrap().status, PeerStatus::Connected);
    node.step(seen(PEER_B, ADDR_3));
    node.step(lost(PEER_A, true));
    assert_eq!(node.get_peer(PEER_A).unwrap().status, PeerStatus::Disconnected);
    assert_eq!(node.get_peer(PEER_B).unwrap().status, PeerStatus::Connected);
    node.step(lost(PEER_B, false));
    node.step(seen(PEER_A, ADDR_1));
    assert_eq!(node.get_peer(PEER_A).unwrap().status, PeerStatus::Connected);
    assert_eq!(node.get_peer(PEER_B).unwrap().status, PeerStatus::Disconnected);
}

#[test]
fn an_expired_peer_that_is_still_reachable_stays_in_the_view() {
    let mut node = running_node(PeerDirectory::new());
    node.step(seen(PEER_A, ADDR_1));
    let actions = node.step(lost(PEER_A, true));
    let record = node.get_peer(PEER_A).unwrap();
    assert_eq!(record.status, PeerStatus::Disconnected);
    assert_eq!(
        actions,
        vec![NodeAction::Persist { key: peer_db_key(PEER_A), record }]
    );
}

#[test]
fn an_expired_peer_that_is_unreachable_leaves_the_view() {
    let mut node = running_node(PeerDirectory::new());
    node.step(seen(PEER_A, ADDR_1));
    let actions = node.step(lost(PEER_A, false));
    let record = node.get_peer(PEER_A).unwrap();
    assert_eq!(record.status, PeerStatus::Disconnected);
    assert_eq!(record.addrs.to_vec(), vec![ADDR_1.to_string()]);
    assert_eq!(
        actions,
        vec![
            NodeAction::Persist { key: peer_db_key(PEER_A), record },
            NodeAction::RemoveFromView { peer: PEER_A.to_string() },
        ]
    );
}

#[test]
fn the_expiry_of_an_unknown_peer_makes_no_record() {
    let mut node = running_node(PeerDirectory::new());
    assert!(node.step(lost(PEER_A, true)).is_empty());
    assert_eq!(
        node.step(lost(PEER_A, false)),
        vec![NodeAction::RemoveFromView { peer: PEER_A.to_string() }]
    );
    assert!(node.get_peer(PEER_A).is_none());
    assert!(node.list_peers().is_empty());
}

#[test]
fn a_list_of_sightings_is_taken_one_by_one() {
    let mut node = running_node(PeerDirectory::new());
    let actions = node.step(NodeInput::Network {
        event: NodeEvent::Discovered {
            peers: vec![
                Sighting { peer: PEER_A.to_string(), addr: ADDR_1.to_string() },
                Sighting { peer: PEER_B.to_string(), addr: ADDR_3.to_string() },
                Sighting { peer: PEER_A.to_string(), addr: ADDR_2.to_string() },
            ],
        },
    });
    assert_eq!(actions.len(), 9);
    assert_eq!(
        actions[6],
        NodeAction::NotifyPeerConnection { peer: PEER_A.to_string(), addr: ADDR_2.to_string() }
    );
    assert_eq!(
        node.get_peer(PEER_A).unwrap().addrs.to_vec(),
        vec![ADDR_1.to_string(), ADDR_2.to_string()]
    );
    let ids: Vec<String> = node.list_peers().into_iter().map(|p| p.id).collect();
    assert_eq!(ids, vec![PEER_A.to_string(), PEER_B.to_string()]);
}

#[test]
fn a_received_broadcast_is_delivered_and_changes_nothing() {
    let mut node = running_node(PeerDirectory::new());
    let actions = node.step(NodeInput::Network {
        event: NodeEvent::Received { source: PEER_A.to_string(), data: b"hello".to_vec() },
    });
    assert_eq!(
        actions,
        vec![NodeAction::Deliver { source: PEER_A.to_string(), data: b"hello".to_vec() }]
    );
    assert!(node.list_peers().is_empty());
}

#[test]
fn listener_and_liveness_events_ask_for_nothing() {
    let mut node = running_node(PeerDirectory::new());
    let quiet = vec![
        NodeEvent::NewListenAddr { addr: ADDR_1.to_string() },
        NodeEvent::Ping { peer: PEER_A.to_string() },
        NodeEvent::Other,
        NodeEvent::Discovered { peers: vec![] },
        NodeEvent::Expired { peers: vec![] },
    ];
    for event in quiet {
        assert!(node.step(NodeInput::Network { event }).is_empty());
    }
    assert!(node.list_peers().is_empty());
    assert_eq!(node.phase(), NodePhase::Running);
}

#[test]
fn each_broadcast_is_published_exactly_once() {
    let mut node = running_node(PeerDirectory::new());
    for text in ["hello", "", "gr\u{fc}\u{df}e"] {
        let actions =
            node.step(NodeInput::Control { message: Some(Message::from(text.to_string())) });
        assert_eq!(actions, vec![NodeAction::Publish { data: text.as_bytes().to_vec() }]);
        assert_eq!(node.phase(), NodePhase::Running);
    }
}

#[test]
fn stop_ends_the_loop_once_and_for_all() {
    let mut node = running_node(PeerDirectory::new());
    node.step(seen(PEER_A, ADDR_1));
    let actions = node.step(NodeInput::Control { message: Some(Message::stop_message()) });
    assert_eq!(actions, vec![NodeAction::NotifyStopped]);
    assert!(node.is_stopped());
    assert_eq!(node.failure(), None);
    let later = vec![
        NodeInput::Control { message: Some(Message::stop_message()) },
        NodeInput::Control { message: Some(Message::from("late".to_string())) },
        NodeInput::Control { message: None },
        seen(PEER_B, ADDR_3),
        lost(PEER_A, false),
    ];
    for input in later {
        assert!(node.step(input).is_empty());
    }
    assert!(node.get_peer(PEER_B).is_none());
    assert_eq!(node.get_peer(PEER_A).unwrap().status, PeerStatus::Connected);
    assert_eq!(node.failure(), None);
}

#[test]
fn handle_and_finish_are_the_two_halves_of_a_step() {
    let mut node = running_node(PeerDirectory::new());
    assert!(node.finish().is_empty());
    assert!(node.handle(NodeInput::Control { message: Some(Message::stop_message()) }).is_empty());
    assert_eq!(node.phase(), NodePhase::Stopping);
    assert!(node.handle(seen(PEER_A, ADDR_1)).is_empty());
    assert_eq!(node.finish(), vec![NodeAction::NotifyStopped]);
    assert_eq!(node.phase(), NodePhase::Stopped);
    assert!(node.finish().is_empty());
}

#[test]
fn a_closed_control_channel_ends_the_loop_with_its_reason() {
    let mut node = running_node(PeerDirectory::new());
    let actions = node.step(NodeInput::Control { message: None });
    assert_eq!(actions, vec![NodeAction::NotifyStopped]);
    assert_eq!(node.phase(), NodePhase::Stopped);
    assert_eq!(node.failure(), Some(NodeError::ChannelClosed));
}

#[test]
fn two_nodes_find_each_other_and_pass_a_broadcast() {
    let id_a = "16Uiu2HAmNodeA";
    let id_b = "16Uiu2HAmNodeB";
    let addr_a = "/ip4/127.0.0.1/tcp/32000";
    let addr_b = "/ip4/127.0.0.1/tcp/32001";
    let mut a = Node::new(PeerDirectory::new(), NodeBehaviourOptions { port: Some(32000), bootnode: None });
    let mut b = Node::new(
        PeerDirectory::new(),
        NodeBehaviourOptions { port: Some(32001), bootnode: Some(addr_a.to_string()) },
    );
    assert_eq!(a.start().unwrap().len(), 1);
    assert_eq!(b.start().unwrap()[0], NodeAction::Dial { addr: addr_a.to_string() });
    a.listening(true).unwrap();
    b.listening(true).unwrap();
    a.step(NodeInput::Network {
        event: NodeEvent::ConnectionEstablished { peer: id_b.to_string(), addr: addr_b.to_string() },
    });
    b.step(NodeInput::Network {
        event: NodeEvent::ConnectionEstablished { peer: id_a.to_string(), addr: addr_a.to_string() },
    });
    let at_a = a.list_peers();
    assert_eq!(at_a.len(), 1);
    assert_eq!(at_a[0].id, id_b);
    assert_eq!(at_a[0].status, PeerStatus::Connected);
    assert!(at_a[0].addrs.len() > 0);
    let at_b = b.list_peers();
    assert_eq!(at_b.len(), 1);
    assert_eq!(at_b[0].id, id_a);
    assert_eq!(at_b[0].status, PeerStatus::Connected);
    assert!(at_b[0].addrs.len() > 0);

    let sent = a.step(NodeInput::Control { message: Some(Message::from("hello".to_string())) });
    let data = match &sent[0] {
        NodeAction::Publish { data } => data.clone(),
        other => panic!("a broadcast is published, not {:?}", other),
    };
    let log = b.step(NodeInput::Network {
        event: NodeEvent::Received { source: id_a.to_string(), data },
    });
    assert_eq!(
        log,
        vec![NodeAction::Deliver { source: id_a.to_string(), data: b"hello".to_vec() }]
    );
}
