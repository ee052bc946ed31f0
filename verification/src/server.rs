//! The control plane: what each request does to the node and what it
//! answers.

use vstd::prelude::*;
use crate::directory::views;
use crate::message::Message;
use crate::message::MessageType;
use crate::peer::Peer;
use crate::state::NodeState;
use crate::text::render_i32;
use crate::text::signed_decimal;

verus! {

/// Where the control plane listens.
#[derive(Debug, Clone)]
pub struct ServerOptions {
    /// The host to bind; the loopback address where none is given.
    pub host: Option<String>,
    pub port: u16,
}

impl ServerOptions {
    /// The host that the server binds.
    pub open spec fn bind_host(&self) -> Seq<char> {
        match self.host {
            Some(h) => h@,
            None => "127.0.0.1"@,
        }
    }

    /// The host that the server binds: the configured one, or the loopback
    /// address.
    pub fn host_or_default(&self) -> (host: String)
        ensures
            host@ == self.bind_host(),
    {
        match &self.host {
            Some(h) => h.clone(),
            None => String::from_str("127.0.0.1"),
        }
    }
}

/// The name of the local socket on which the control plane listens too.
pub fn socket_name() -> (name: String)
    ensures
        name@ == "hanode.sock"@,
{
    String::from_str("hanode.sock")
}

/// The answer to a broadcast request that asked for `message`, when the
/// count of such requests stands at `n`.
pub open spec fn broadcast_reply(message: Seq<char>, n: int) -> Seq<char> {
    "Hello "@ + message + " "@ + signed_decimal(n) + "!"@
}

/// The count after one more request: one more, starting over from the
/// smallest number after the largest.
pub open spec fn counted(n: int) -> int {
    if n == i32::MAX {
        i32::MIN as int
    } else {
        n + 1
    }
}

/// The state of the control plane: how many broadcasts were asked for.
#[derive(Debug, Clone)]
pub struct ControlPlane {
    counter: i32,
}

impl ControlPlane {
    /// The count of broadcast requests so far.
    pub closed spec fn count(&self) -> int {
        self.counter as int
    }

    /// A control plane that has served nothing yet.
    pub fn new() -> (plane: ControlPlane)
        ensures
            plane.count() == 0,
    {
        ControlPlane { counter: 0 }
    }

    /// The number of broadcast requests so far.
    pub fn counter(&self) -> (n: i32)
        ensures
            n == self.count(),
    {
        self.counter
    }

    /// Serves a broadcast request: counts it, and returns the control
    /// message that goes to the node and the text that goes back to the
    /// caller.
    pub fn boardcast(&mut self, message: &str) -> (r: (Message, String))
        ensures
            final(self).count() == counted(old(self).count()),
            r.0.type_ == MessageType::Text,
            r.0.message@ == message@,
            r.1@ == broadcast_reply(message@, final(self).count()),
    {
        self.counter = self.counter.wrapping_add(1);
        let mut reply = String::from_str("Hello ");
        reply.append(message);
        reply.append(" ");
        let digits = render_i32(self.counter);
        reply.append(digits.as_str());
        reply.append("!");
        (Message::from(String::from_str(message)), reply)
    }

    /// Serves a stop request: returns the control message that goes to the
    /// node and the text that goes back to the caller.
    pub fn stop_p2p_node(&self) -> (r: (Message, String))
        ensures
            r.0.type_ == MessageType::Stop,
            r.0.message@ == Seq::<char>::empty(),
            r.1@ == "stop"@,
    {
        (Message::stop_message(), String::from_str("stop"))
    }

    /// Serves a request for the peers: a copy of every record of the
    /// shared state, as it stands.
    pub fn peers(&self, state: &NodeState) -> (all: Vec<Peer>)
        requires
            state.wf(),
        ensures
            views(all@) == state.peers.entries(),
    {
        state.peers.list_peers()
    }
}

} // verus!
