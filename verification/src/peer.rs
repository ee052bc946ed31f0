//! What the node knows of one remote peer.

use vstd::prelude::*;
use crate::text::same_text;
use crate::text::texts;

verus! {

/// Whether the peer was reachable when the node last heard of it.
#[derive(Debug, Clone, Copy, PartialEq, Eq, Structural)]
pub enum PeerStatus {
    Connected,
    Disconnected,
}

/// `addrs` with `addr` added at the end, unless it is already there.
pub open spec fn with_addr(addrs: Seq<Seq<char>>, addr: Seq<char>) -> Seq<Seq<char>> {
    if addrs.contains(addr) {
        addrs
    } else {
        addrs.push(addr)
    }
}

/// Adding an address adds it to the set of addresses and to nothing else.
pub proof fn lemma_with_addr_set(addrs: Seq<Seq<char>>, addr: Seq<char>)
    ensures
        with_addr(addrs, addr).to_set() == addrs.to_set().insert(addr),
        addrs.no_duplicates() ==> with_addr(addrs, addr).no_duplicates(),
{
    let after = with_addr(addrs, addr);
    assert forall|a: Seq<char>| after.to_set().contains(a) <==> addrs.to_set().insert(addr).contains(a) by {
        if addrs.contains(addr) {
        } else {
            if after.contains(a) {
                let i = choose|i: int| 0 <= i < after.len() && after[i] == a;
                if i < addrs.len() {
                    assert(addrs[i] == a);
                }
            }
            if addrs.contains(a) {
                let i = choose|i: int| 0 <= i < addrs.len() && addrs[i] == a;
                assert(after[i] == a);
            }
            if a == addr {
                assert(after[addrs.len() as int] == a);
            }
        }
    }
    assert(after.to_set() =~= addrs.to_set().insert(addr));
}

/// Whether a text is a network address in the textual form of multiaddr,
/// as libp2p's parser decides it.
pub uninterp spec fn is_multiaddr(text: Seq<char>) -> bool;

/// Asks `libp2p::Multiaddr`'s `FromStr` whether `text` parses. The answer
/// depends on the text alone.
#[verifier::external_body]
pub(crate) fn parses_as_multiaddr(text: &str) -> (ok: bool)
    ensures
        ok == is_multiaddr(text@),
{
    text.parse::<libp2p::Multiaddr>().is_ok()
}

/// Whether every one of the texts is a network address.
pub open spec fn all_multiaddrs(addrs: Seq<Seq<char>>) -> bool {
    forall|i: int| 0 <= i < addrs.len() ==> is_multiaddr(#[trigger] addrs[i])
}

/// The addresses of a list, each once, in the order of first occurrence.
pub open spec fn collected(addrs: Seq<Seq<char>>) -> Seq<Seq<char>>
    decreases addrs.len(),
{
    if addrs.len() == 0 {
        Seq::empty()
    } else {
        with_addr(collected(addrs.drop_last()), addrs.last())
    }
}

/// The network addresses at which a peer has been seen. No address occurs
/// twice; they are kept in the order in which they were first seen.
#[derive(Debug, Clone, PartialEq, Eq)]
pub struct AddrSet {
    items: Vec<String>,
}

impl View for AddrSet {
    type V = Seq<Seq<char>>;

    closed spec fn view(&self) -> Seq<Seq<char>> {
        texts(self.items@)
    }
}

impl AddrSet {
    /// No address occurs twice. Every set that this module hands out is
    /// well formed, and its methods keep it so.
    pub open spec fn wf(&self) -> bool {
        self@.no_duplicates()
    }

    /// The empty set.
    pub fn new() -> (s: AddrSet)
        ensures
            s.wf(),
            s@ == Seq::<Seq<char>>::empty(),
    {
        let s = AddrSet { items: Vec::new() };
        assert(s@ =~= Seq::<Seq<char>>::empty());
        s
    }

    /// The number of addresses.
    pub fn len(&self) -> (n: usize)
        ensures
            n == self@.len(),
    {
        self.items.len()
    }

    /// Whether `addr` is one of the addresses.
    pub fn contains(&self, addr: &str) -> (found: bool)
        ensures
            found == self@.contains(addr@),
    {
        let mut i: usize = 0;
        while i < self.items.len()
            invariant
                i <= self.items.len(),
                forall|k: int| 0 <= k < i ==> self@[k] != addr@,
            decreases self.items.len() - i,
        {
            if same_text(self.items[i].as_str(), addr) {
                assert(self@[i as int] == addr@);
                return true;
            }
            i += 1;
        }
        false
    }

    /// Adds `addr` unless it is there already; says whether it was added.
    pub fn insert(&mut self, addr: &str) -> (added: bool)
        requires
            old(self).wf(),
        ensures
            final(self).wf(),
            added == !old(self)@.contains(addr@),
            final(self)@ == with_addr(old(self)@, addr@),
    {
        if self.contains(addr) {
            false
        } else {
            let ghost before = self@;
            let owned = String::from_str(addr);
            self.items.push(owned);
            proof {
                assert(self@ =~= before.push(addr@));
                lemma_with_addr_set(before, addr@);
            }
            true
        }
    }

    /// The address at position `i`, counted in the order of first sight.
    pub fn get(&self, i: usize) -> (addr: &String)
        requires
            i < self@.len(),
        ensures
            addr@ == self@[i as int],
    {
        &self.items[i]
    }

    /// The addresses as a vector, in the order of first sight.
    pub fn to_vec(&self) -> (v: Vec<String>)
        ensures
            texts(v@) == self@,
    {
        let mut v: Vec<String> = Vec::new();
        let mut i: usize = 0;
        while i < self.items.len()
            invariant
                i <= self.items.len(),
                v@.len() == i,
                forall|k: int| 0 <= k < i ==> v@[k]@ == self@[k],
            decreases self.items.len() - i,
        {
            v.push(self.items[i].clone());
            i += 1;
        }
        assert(texts(v@) =~= self@);
        v
    }

    /// A copy of the set.
    pub fn copy(&self) -> (s: AddrSet)
        ensures
            s@ == self@,
            s.wf() == self.wf(),
    {
        let items = self.to_vec();
        AddrSet { items }
    }
}

/// The mathematical content of a [`Peer`].
pub struct PeerView {
    pub id: Seq<char>,
    pub hostname: Seq<char>,
    pub host_mac: Seq<char>,
    pub addrs: Seq<Seq<char>>,
    pub status: PeerStatus,
}

impl PeerView {
    /// The record of a peer of which nothing is known but its identifier.
    pub open spec fn fresh(id: Seq<char>) -> PeerView {
        PeerView {
            id,
            hostname: Seq::empty(),
            host_mac: Seq::empty(),
            addrs: Seq::empty(),
            status: PeerStatus::Connected,
        }
    }

    /// The record after the peer was seen at `addr`.
    pub open spec fn seen_at(self, addr: Seq<char>) -> PeerView {
        PeerView { addrs: with_addr(self.addrs, addr), status: PeerStatus::Connected, ..self }
    }

    /// The record after the peer's discovery entry ran out.
    pub open spec fn expired(self) -> PeerView {
        PeerView { status: PeerStatus::Disconnected, ..self }
    }

    /// The set of addresses at which the peer was seen.
    pub open spec fn addr_set(self) -> Set<Seq<char>> {
        self.addrs.to_set()
    }
}

/// The record that a discovery of `id` at `addr` leaves, given the record
/// held before, if any.
pub open spec fn observed(existing: Option<PeerView>, id: Seq<char>, addr: Seq<char>) -> PeerView {
    match existing {
        Some(p) => p.seen_at(addr),
        None => PeerView::fresh(id).seen_at(addr),
    }
}

/// One remote node as currently known.
#[derive(Debug, Clone, PartialEq, Eq)]
pub struct Peer {
    /// Canonical text of the remote node's identifier.
    pub id: String,
    pub hostname: String,
    pub host_mac: String,
    /// Every address at which the peer was ever seen.
    pub addrs: AddrSet,
    pub status: PeerStatus,
}

impl View for Peer {
    type V = PeerView;

    open spec fn view(&self) -> PeerView {
        PeerView {
            id: self.id@,
            hostname: self.hostname@,
            host_mac: self.host_mac@,
            addrs: self.addrs@,
            status: self.status,
        }
    }
}

/// The content of an optional record.
pub open spec fn opt_view(p: Option<Peer>) -> Option<PeerView> {
    match p {
        Some(p) => Some(p@),
        None => None,
    }
}

impl Peer {
    /// The record is well formed when its addresses are.
    pub open spec fn wf(&self) -> bool {
        self.addrs.wf()
    }

    /// The record of a peer of which nothing is known but its identifier:
    /// no metadata, no address, status `Connected`.
    pub fn new(id: &str) -> (p: Peer)
        ensures
            p.wf(),
            p@ == PeerView::fresh(id@),
    {
        Peer {
            id: String::from_str(id),
            hostname: String::new(),
            host_mac: String::new(),
            addrs: AddrSet::new(),
            status: PeerStatus::Connected,
        }
    }

    /// The record with the given parts. Of an address that is listed more
    /// than once the first occurrence counts.
    pub fn from_parts(
        id: String,
        hostname: String,
        host_mac: String,
        addrs: &Vec<String>,
        status: PeerStatus,
    ) -> (p: Peer)
        ensures
            p.wf(),
            p@ == (PeerView {
                id: id@,
                hostname: hostname@,
                host_mac: host_mac@,
                addrs: collected(texts(addrs@)),
                status,
            }),
    {
        let ghost all = texts(addrs@);
        let mut set = AddrSet::new();
        let mut i: usize = 0;
        while i < addrs.len()
            invariant
                i <= addrs@.len(),
                all == texts(addrs@),
                set.wf(),
                set@ == collected(all.take(i as int)),
            decreases addrs@.len() - i,
        {
            proof {
                assert(all.take(i + 1).drop_last() =~= all.take(i as int));
                assert(all.take(i + 1).last() == addrs@[i as int]@);
            }
            set.insert(addrs[i].as_str());
            i += 1;
        }
        assert(all.take(i as int) =~= all);
        Peer { id, hostname, host_mac, addrs: set, status }
    }

    /// The record that a store held, given its parts as they were read. A
    /// record is readable only if every one of its addresses is a network
    /// address; one that is not gives `None`.
    pub fn from_record(
        id: String,
        hostname: String,
        host_mac: String,
        addrs: &Vec<String>,
        status: PeerStatus,
    ) -> (r: Option<Peer>)
        ensures
            r is Some <==> all_multiaddrs(texts(addrs@)),
            r matches Some(p) ==> p.wf() && p@ == (PeerView {
                id: id@,
                hostname: hostname@,
                host_mac: host_mac@,
                addrs: collected(texts(addrs@)),
                status,
            }),
    {
        let mut i: usize = 0;
        while i < addrs.len()
            invariant
                i <= addrs@.len(),
                forall|k: int| 0 <= k < i ==> is_multiaddr(#[trigger] texts(addrs@)[k]),
            decreases addrs@.len() - i,
        {
            if !parses_as_multiaddr(addrs[i].as_str()) {
                assert(!is_multiaddr(texts(addrs@)[i as int]));
                return None;
            }
            i += 1;
        }
        Some(Peer::from_parts(id, hostname, host_mac, addrs, status))
    }

    /// A copy of the record.
    pub fn copy(&self) -> (p: Peer)
        ensures
            p@ == self@,
            p.wf() == self.wf(),
    {
        Peer {
            id: self.id.clone(),
            hostname: self.hostname.clone(),
            host_mac: self.host_mac.clone(),
            addrs: self.addrs.copy(),
            status: self.status,
        }
    }

    /// Merges a sighting of the peer `id` at `addr` into the record held
    /// before: the address joins the known ones and the status becomes
    /// `Connected`. Without an earlier record a fresh one is made for `id`.
    pub fn observe(existing: Option<Peer>, id: &str, addr: &str) -> (p: Peer)
        requires
            existing matches Some(e) ==> e.wf(),
        ensures
            p.wf(),
            p@ == observed(opt_view(existing), id@, addr@),
    {
        let mut p = match existing {
            Some(p) => p,
            None => Peer::new(id),
        };
        p.status = PeerStatus::Connected;
        p.addrs.insert(addr);
        p
    }

    /// Marks the record as disconnected and leaves the rest as it is.
    pub fn expire(self) -> (p: Peer)
        ensures
            p@ == self@.expired(),
            p.wf() == self.wf(),
    {
        let mut p = self;
        p.status = PeerStatus::Disconnected;
        p
    }
}

} // verus!
