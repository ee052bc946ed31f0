//! What holds of the directory and of the actions after any run of
//! observations and inputs, whatever their order.

use vstd::prelude::*;
use crate::directory::distinct_ids;
use crate::directory::lemma_store_then_lookup;
use crate::directory::lemma_stored_wf;
use crate::directory::lookup;
use vstd::utf8::encode_utf8;
use crate::lifecycle::notice;
use crate::lifecycle::notices;
use crate::lifecycle::Notice;
use crate::message::MessageType;
use crate::message::MessageView;
use crate::node::bound;
use crate::node::started;
use crate::node::applied;
use crate::node::applied_all;
use crate::node::dials;
use crate::node::emitted_all;
use crate::node::handled;
use crate::node::observations;
use crate::node::redials;
use crate::node::stepped;
use crate::node::ActionView;
use crate::node::InputView;
use crate::node::NodeError;
use crate::node::NodeModel;
use crate::node::NodePhase;
use crate::node::Observation;
use crate::peer::lemma_with_addr_set;
use crate::peer::observed;
use crate::peer::PeerStatus;
use crate::peer::PeerView;

verus! {

/// The peer that an observation is about.
pub open spec fn subject(o: Observation) -> Seq<char> {
    match o {
        Observation::Seen { peer, addr } => peer,
        Observation::Lost { peer, reachable } => peer,
    }
}

/// The addresses that the directory holds for `peer`; none for a peer that
/// it does not know.
pub open spec fn known_addrs(e: Seq<PeerView>, peer: Seq<char>) -> Set<Seq<char>> {
    match lookup(e, peer) {
        Some(p) => p.addr_set(),
        None => Set::empty(),
    }
}

/// The addresses at which the observations `obs` saw `peer`.
pub open spec fn seen_addrs(obs: Seq<Observation>, peer: Seq<char>) -> Set<Seq<char>> {
    Set::new(|a: Seq<char>| obs.contains(Observation::Seen { peer, addr: a }))
}

/// The last of the observations that is about `peer`, if any is.
pub open spec fn last_about(obs: Seq<Observation>, peer: Seq<char>) -> Option<Observation>
    decreases obs.len(),
{
    if obs.len() == 0 {
        None
    } else if subject(obs.last()) == peer {
        Some(obs.last())
    } else {
        last_about(obs.drop_last(), peer)
    }
}

/// A record that a lookup finds carries the identifier that was looked up.
pub proof fn lemma_lookup_id(e: Seq<PeerView>, peer: Seq<char>)
    ensures
        lookup(e, peer) matches Some(r) ==> r.id == peer,
{
}

/// What one observation does to the record of any one peer: a sighting of
/// the peer merges the address into its record, an expiry marks its record,
/// if it has one, as disconnected, and an observation about another peer
/// leaves its record as it was.
pub proof fn lemma_applied_lookup(e: Seq<PeerView>, o: Observation, peer: Seq<char>)
    requires
        distinct_ids(e),
    ensures
        distinct_ids(applied(e, o)),
        subject(o) != peer ==> lookup(applied(e, o), peer) == lookup(e, peer),
        o matches Observation::Seen { peer: p, addr } ==> (p == peer ==> lookup(
            applied(e, o),
            peer,
        ) == Some(observed(lookup(e, peer), peer, addr))),
        o matches Observation::Lost { peer: p, reachable } ==> (p == peer ==> lookup(
            applied(e, o),
            peer,
        ) == match lookup(e, peer) {
            Some(r) => Some(r.expired()),
            None => None,
        }),
{
    match o {
        Observation::Seen { peer: p, addr } => {
            let r = observed(lookup(e, p), p, addr);
            lemma_lookup_id(e, p);
            assert(r.id == p);
            lemma_stored_wf(e, r);
            lemma_store_then_lookup(e, r, peer);
        },
        Observation::Lost { peer: p, reachable } => {
            match lookup(e, p) {
                Some(r) => {
                    lemma_lookup_id(e, p);
                    lemma_stored_wf(e, r.expired());
                    lemma_store_then_lookup(e, r.expired(), peer);
                },
                None => {},
            }
        },
    }
}

/// Runs of observations keep the identifiers of the directory distinct.
pub proof fn lemma_applied_all_distinct(e: Seq<PeerView>, obs: Seq<Observation>)
    requires
        distinct_ids(e),
    ensures
        distinct_ids(applied_all(e, obs)),
    decreases obs.len(),
{
    if obs.len() > 0 {
        lemma_applied_all_distinct(e, obs.drop_last());
        lemma_applied_lookup(applied_all(e, obs.drop_last()), obs.last(), subject(obs.last()));
    }
}

/// Addresses accumulate: after any run of observations, the addresses held
/// for a peer are those held before together with every address at which
/// the run saw the peer. Nothing is ever dropped, and neither the order of
/// the observations nor what they say of other peers plays a part.
pub proof fn lemma_addresses_accumulate(e: Seq<PeerView>, obs: Seq<Observation>, peer: Seq<char>)
    requires
        distinct_ids(e),
    ensures
        known_addrs(applied_all(e, obs), peer) == known_addrs(e, peer).union(
            seen_addrs(obs, peer),
        ),
    decreases obs.len(),
{
    if obs.len() == 0 {
        assert(known_addrs(e, peer).union(seen_addrs(obs, peer)) =~= known_addrs(e, peer));
    } else {
        let init = obs.drop_last();
        let o = obs.last();
        let mid = applied_all(e, init);
        lemma_addresses_accumulate(e, init, peer);
        lemma_applied_all_distinct(e, init);
        lemma_applied_lookup(mid, o, peer);
        let after = applied(mid, o);
        assert(obs =~= init.push(o));
        match o {
            Observation::Seen { peer: p, addr } => {
                if p == peer {
                    match lookup(mid, peer) {
                        Some(r) => {
                            lemma_with_addr_set(r.addrs, addr);
                        },
                        None => {
                            lemma_with_addr_set(Seq::<Seq<char>>::empty(), addr);
                            assert(Seq::<Seq<char>>::empty().to_set() =~= Set::<Seq<char>>::empty());
                        },
                    }
                    assert(known_addrs(after, peer) =~= known_addrs(mid, peer).insert(addr));
                    assert forall|a: Seq<char>| seen_addrs(obs, peer).contains(a) <==> seen_addrs(
                        init,
                        peer,
                    ).insert(addr).contains(a) by {
                        let x = Observation::Seen { peer, addr: a };
                        if init.contains(x) {
                            let i = choose|i: int| 0 <= i < init.len() && init[i] == x;
                            assert(obs[i] == x);
                        }
                        if a == addr {
                            assert(obs[obs.len() - 1] == x);
                        }
                        if obs.contains(x) {
                            let i = choose|i: int| 0 <= i < obs.len() && obs[i] == x;
                            if i < init.len() {
                                assert(init[i] == x);
                            }
                        }
                    }
                    assert(seen_addrs(obs, peer) =~= seen_addrs(init, peer).insert(addr));
                    assert(known_addrs(after, peer) =~= known_addrs(e, peer).union(
                        seen_addrs(obs, peer),
                    ));
                } else {
                    lemma_seen_addrs_other(init, o, peer);
                }
            },
            Observation::Lost { peer: p, reachable } => {
                lemma_seen_addrs_other(init, o, peer);
                if p == peer {
                    assert(known_addrs(after, peer) =~= known_addrs(mid, peer));
                }
            },
        }
    }
}

/// An observation that is no sighting of `peer` adds nothing to the
/// addresses at which `peer` was seen.
pub proof fn lemma_seen_addrs_other(init: Seq<Observation>, o: Observation, peer: Seq<char>)
    requires
        !(o is Seen && subject(o) == peer),
    ensures
        seen_addrs(init.push(o), peer) == seen_addrs(init, peer),
{
    let obs = init.push(o);
    assert forall|a: Seq<char>| seen_addrs(obs, peer).contains(a) <==> seen_addrs(
        init,
        peer,
    ).contains(a) by {
        let x = Observation::Seen { peer, addr: a };
        if init.contains(x) {
            let i = choose|i: int| 0 <= i < init.len() && init[i] == x;
            assert(obs[i] == x);
        }
        if obs.contains(x) {
            let i = choose|i: int| 0 <= i < obs.len() && obs[i] == x;
            if i < init.len() {
                assert(init[i] == x);
            }
        }
    }
    assert(seen_addrs(obs, peer) =~= seen_addrs(init, peer));
}

/// Two runs that hold the same observations, in whatever order, leave the
/// same addresses for every peer.
pub proof fn lemma_order_is_immaterial(
    e: Seq<PeerView>,
    first: Seq<Observation>,
    second: Seq<Observation>,
    peer: Seq<char>,
)
    requires
        distinct_ids(e),
        first.to_multiset() == second.to_multiset(),
    ensures
        known_addrs(applied_all(e, first), peer) == known_addrs(applied_all(e, second), peer),
{
    lemma_addresses_accumulate(e, first, peer);
    lemma_addresses_accumulate(e, second, peer);
    first.to_multiset_ensures();
    second.to_multiset_ensures();
    assert forall|a: Seq<char>| seen_addrs(first, peer).contains(a) <==> seen_addrs(
        second,
        peer,
    ).contains(a) by {
        let x = Observation::Seen { peer, addr: a };
        assert(first.contains(x) <==> first.to_multiset().count(x) > 0);
        assert(second.contains(x) <==> second.to_multiset().count(x) > 0);
    }
    assert(seen_addrs(first, peer) =~= seen_addrs(second, peer));
}

/// Records are never deleted: a peer that the directory knows stays known
/// through any run of observations.
pub proof fn lemma_known_stays_known(e: Seq<PeerView>, obs: Seq<Observation>, peer: Seq<char>)
    requires
        distinct_ids(e),
        lookup(e, peer) is Some,
    ensures
        lookup(applied_all(e, obs), peer) is Some,
    decreases obs.len(),
{
    if obs.len() > 0 {
        lemma_known_stays_known(e, obs.drop_last(), peer);
        lemma_applied_all_distinct(e, obs.drop_last());
        lemma_applied_lookup(applied_all(e, obs.drop_last()), obs.last(), peer);
    }
}

/// The status of a record follows the last observation about its peer:
/// after a run of observations the record of a peer, if there is one, says
/// `Connected` exactly if the last observation about the peer was a sighting
/// and `Disconnected` exactly if it was an expiry. A sighting always leaves
/// a record, and a run that says nothing about a peer leaves its record as
/// it was.
pub proof fn lemma_status_follows_last(e: Seq<PeerView>, obs: Seq<Observation>, peer: Seq<char>)
    requires
        distinct_ids(e),
    ensures
        match last_about(obs, peer) {
            Some(o) => match lookup(applied_all(e, obs), peer) {
                Some(r) => (r.status == PeerStatus::Connected <==> o is Seen) && (r.status
                    == PeerStatus::Disconnected <==> o is Lost),
                None => o is Lost,
            },
            None => lookup(applied_all(e, obs), peer) == lookup(e, peer),
        },
    decreases obs.len(),
{
    if obs.len() > 0 {
        let init = obs.drop_last();
        let o = obs.last();
        lemma_status_follows_last(e, init, peer);
        lemma_applied_all_distinct(e, init);
        lemma_applied_lookup(applied_all(e, init), o, peer);
    }
}

/// Whether an input ends the loop: a stop request, or the end of the
/// control channel.
pub open spec fn is_stop(input: InputView) -> bool {
    match input {
        InputView::Control { message: Some(m) } => m.type_ == MessageType::Stop,
        InputView::Control { message: None } => true,
        InputView::Network { event } => false,
    }
}

/// Whether an input is a broadcast request.
pub open spec fn is_broadcast(input: InputView) -> bool {
    match input {
        InputView::Control { message: Some(m) } => m.type_ == MessageType::Text,
        _ => false,
    }
}

/// The node and all its actions after a run of inputs, one turn of the loop
/// for each.
pub open spec fn ran(m: NodeModel, inputs: Seq<InputView>) -> (NodeModel, Seq<ActionView>)
    decreases inputs.len(),
{
    if inputs.len() == 0 {
        (m, Seq::empty())
    } else {
        let (m1, before) = ran(m, inputs.drop_last());
        let (m2, last) = stepped(m1, inputs.last());
        (m2, before + last)
    }
}

/// The actions that observations ask for tell the hooks of a peer, write a
/// record or change the broadcast view; they neither publish nor report
/// the end of the loop.
pub proof fn lemma_emitted_all_kinds(e: Seq<PeerView>, obs: Seq<Observation>, i: int)
    requires
        0 <= i < emitted_all(e, obs).len(),
    ensures
        !(emitted_all(e, obs)[i] is Publish),
        !(emitted_all(e, obs)[i] is NotifyStopped),
    decreases obs.len(),
{
    if obs.len() > 0 {
        let before = emitted_all(e, obs.drop_last());
        if i < before.len() {
            lemma_emitted_all_kinds(e, obs.drop_last(), i);
        }
    }
}

/// A running node publishes a broadcast request exactly once, as the bytes
/// of its text, and does nothing else for it.
pub proof fn lemma_broadcast_publishes_once(m: NodeModel, text: Seq<char>)
    requires
        m.phase == NodePhase::Running,
    ensures
        stepped(
            m,
            InputView::Control { message: Some(MessageView { type_: MessageType::Text, message: text }) },
        ) == (m, seq![ActionView::Publish { data: encode_utf8(text) }]),
{
    let input = InputView::Control {
        message: Some(MessageView { type_: MessageType::Text, message: text }),
    };
    assert(stepped(m, input).1 =~= seq![ActionView::Publish { data: encode_utf8(text) }]);
}

/// Nothing but a broadcast request to a running node is ever published.
pub proof fn lemma_only_broadcasts_publish(m: NodeModel, input: InputView, i: int)
    requires
        0 <= i < stepped(m, input).1.len(),
        stepped(m, input).1[i] is Publish,
    ensures
        m.phase == NodePhase::Running,
        is_broadcast(input),
{
    let (m1, first) = handled(m, input);
    if m.phase == NodePhase::Running {
        match input {
            InputView::Network { event } => {
                let obs = observations(event);
                if i < emitted_all(m.directory, obs).len() {
                    lemma_emitted_all_kinds(m.directory, obs, i);
                }
            },
            _ => {},
        }
    }
}

/// A stop request, or the end of the control channel, ends the loop of a
/// running node in that very turn: the hooks are told once that the loop
/// has ended, nothing else is asked for, and the node is stopped. The end
/// of the channel is kept as the reason.
pub proof fn lemma_stop_ends_loop(m: NodeModel, input: InputView)
    requires
        m.phase == NodePhase::Running,
        is_stop(input),
    ensures
        stepped(m, input).1 == seq![ActionView::NotifyStopped],
        stepped(m, input).0 == (NodeModel {
            phase: NodePhase::Stopped,
            failure: if input == (InputView::Control { message: None }) {
                Some(NodeError::ChannelClosed)
            } else {
                m.failure
            },
            ..m
        }),
{
    assert(stepped(m, input).1 =~= seq![ActionView::NotifyStopped]);
}

/// An input that does not end the loop leaves a running node running and
/// does not report the end of the loop.
pub proof fn lemma_running_goes_on(m: NodeModel, input: InputView, i: int)
    requires
        m.phase == NodePhase::Running,
        !is_stop(input),
    ensures
        stepped(m, input).0.phase == NodePhase::Running,
        0 <= i < stepped(m, input).1.len() ==> !(stepped(m, input).1[i] is NotifyStopped),
{
    match input {
        InputView::Network { event } => {
            let obs = observations(event);
            if 0 <= i < emitted_all(m.directory, obs).len() {
                lemma_emitted_all_kinds(m.directory, obs, i);
            }
        },
        _ => {},
    }
}

/// A stopped node stays as it is and asks for nothing, whatever comes in.
pub proof fn lemma_nothing_after_stop(m: NodeModel, inputs: Seq<InputView>)
    requires
        m.phase == NodePhase::Stopped,
    ensures
        ran(m, inputs) == (m, Seq::<ActionView>::empty()),
    decreases inputs.len(),
{
    if inputs.len() > 0 {
        lemma_nothing_after_stop(m, inputs.drop_last());
        assert(ran(m, inputs).1 =~= Seq::<ActionView>::empty());
    }
}

/// A run of inputs is the run of its first part followed by the run of the
/// rest.
pub proof fn lemma_ran_in_parts(m: NodeModel, first: Seq<InputView>, rest: Seq<InputView>)
    ensures
        ran(m, first + rest) == (
            ran(ran(m, first).0, rest).0,
            ran(m, first).1 + ran(ran(m, first).0, rest).1,
        ),
    decreases rest.len(),
{
    if rest.len() == 0 {
        assert(first + rest =~= first);
        assert(ran(m, first).1 + Seq::<ActionView>::empty() =~= ran(m, first).1);
    } else {
        let all = first + rest;
        assert(all.drop_last() =~= first + rest.drop_last());
        assert(all.last() == rest.last());
        lemma_ran_in_parts(m, first, rest.drop_last());
        let m1 = ran(m, first).0;
        let a1 = ran(m, first).1;
        let (m2, a2) = ran(m1, rest.drop_last());
        let (m3, a3) = stepped(m2, rest.last());
        assert((a1 + a2) + a3 =~= a1 + (a2 + a3));
    }
}

/// As long as no input ends the loop, a running node goes on running and
/// never reports the end of the loop.
pub proof fn lemma_runs_until_stopped(m: NodeModel, inputs: Seq<InputView>, i: int)
    requires
        m.phase == NodePhase::Running,
        forall|j: int| 0 <= j < inputs.len() ==> !is_stop(#[trigger] inputs[j]),
    ensures
        ran(m, inputs).0.phase == NodePhase::Running,
        0 <= i < ran(m, inputs).1.len() ==> !(ran(m, inputs).1[i] is NotifyStopped),
    decreases inputs.len(),
{
    if inputs.len() > 0 {
        let init = inputs.drop_last();
        assert forall|j: int| 0 <= j < init.len() implies !is_stop(#[trigger] init[j]) by {
            assert(init[j] == inputs[j]);
        }
        lemma_runs_until_stopped(m, init, i);
        let (m1, before) = ran(m, init);
        assert(!is_stop(inputs[inputs.len() - 1]));
        lemma_running_goes_on(m1, inputs.last(), i - before.len());
    }
}

/// The loop ends once. Let the input at position `k` be the first that
/// ends the loop of a running node. Then the actions of the whole run are
/// those of the inputs before `k`, none of which reports the end of the
/// loop, followed by the one report of it. The node is stopped, and the
/// inputs after `k`, further stop requests among them, are not processed.
pub proof fn lemma_loop_ends_once(m: NodeModel, inputs: Seq<InputView>, k: int, i: int)
    requires
        m.phase == NodePhase::Running,
        0 <= k < inputs.len(),
        is_stop(inputs[k]),
        forall|j: int| 0 <= j < k ==> !is_stop(#[trigger] inputs[j]),
    ensures
        ran(m, inputs).0.phase == NodePhase::Stopped,
        ran(m, inputs).0 == stepped(ran(m, inputs.take(k)).0, inputs[k]).0,
        ran(m, inputs).1 == ran(m, inputs.take(k)).1.push(ActionView::NotifyStopped),
        0 <= i < ran(m, inputs.take(k)).1.len() ==> !(ran(m, inputs.take(k)).1[i]
            is NotifyStopped),
{
    let head = inputs.take(k);
    let upto = inputs.take(k + 1);
    let rest = inputs.skip(k + 1);
    assert(inputs =~= upto + rest);
    assert(upto.drop_last() =~= head);
    assert(upto.last() == inputs[k]);
    assert forall|j: int| 0 <= j < head.len() implies !is_stop(#[trigger] head[j]) by {
        assert(head[j] == inputs[j]);
    }
    lemma_runs_until_stopped(m, head, i);
    let (m1, before) = ran(m, head);
    lemma_stop_ends_loop(m1, inputs[k]);
    let (m2, last) = stepped(m1, inputs[k]);
    assert(ran(m, upto) == (m2, before + last));
    assert(before + last =~= before.push(ActionView::NotifyStopped));
    lemma_ran_in_parts(m, upto, rest);
    lemma_nothing_after_stop(m2, rest);
    assert(ran(m, upto).1 + Seq::<ActionView>::empty() =~= ran(m, upto).1);
}

/// The dials for the addresses of one record: one for each address, and,
/// where no address is listed twice, no dial twice.
pub proof fn lemma_one_dial_per_address(addrs: Seq<Seq<char>>, a: Seq<char>)
    ensures
        dials(addrs).len() == addrs.len(),
        dials(addrs).contains(ActionView::Dial { addr: a }) <==> addrs.contains(a),
        addrs.no_duplicates() ==> dials(addrs).no_duplicates(),
{
    let d = dials(addrs);
    if addrs.contains(a) {
        let i = choose|i: int| 0 <= i < addrs.len() && addrs[i] == a;
        assert(d[i] == ActionView::Dial { addr: a });
    }
    if d.contains(ActionView::Dial { addr: a }) {
        let i = choose|i: int| 0 <= i < d.len() && d[i] == ActionView::Dial { addr: a };
        assert(addrs[i] == a);
    }
    if addrs.no_duplicates() {
        assert forall|i: int, j: int| 0 <= i < d.len() && 0 <= j < d.len() && i != j implies d[i]
            != d[j] by {
            assert(d[i] == ActionView::Dial { addr: addrs[i] });
            assert(d[j] == ActionView::Dial { addr: addrs[j] });
        }
    }
}

/// The redials hold, for every known peer, one stretch with exactly the
/// dials of that peer's addresses: the stretch for the record at position
/// `i` comes right after the redials for the records before it.
pub proof fn lemma_redials_cover_every_peer(e: Seq<PeerView>, i: int)
    requires
        0 <= i < e.len(),
    ensures
        redials(e.take(i)).len() + e[i].addrs.len() <= redials(e).len(),
        redials(e).subrange(
            redials(e.take(i)).len() as int,
            (redials(e.take(i)).len() + e[i].addrs.len()) as int,
        ) == dials(e[i].addrs),
    decreases e.len(),
{
    let init = e.drop_last();
    if i == e.len() - 1 {
        assert(e.take(i) =~= init);
        assert(redials(e).subrange(
            redials(init).len() as int,
            (redials(init).len() + e[i].addrs.len()) as int,
        ) =~= dials(e[i].addrs));
    } else {
        lemma_redials_cover_every_peer(init, i);
        assert(init.take(i) =~= e.take(i));
        assert(init[i] == e[i]);
        let start = redials(e.take(i)).len() as int;
        let end = start + e[i].addrs.len();
        assert(redials(e).subrange(start, end) =~= redials(init).subrange(start, end));
    }
}

/// The redials go by the addresses alone: directories whose records list
/// the same addresses ask for the same redials, whatever the status or the
/// other fields of the records say.
pub proof fn lemma_redials_ignore_status(e: Seq<PeerView>, f: Seq<PeerView>)
    requires
        e.len() == f.len(),
        forall|i: int| 0 <= i < e.len() ==> (#[trigger] e[i]).addrs == f[i].addrs,
    ensures
        redials(e) == redials(f),
    decreases e.len(),
{
    if e.len() > 0 {
        assert(e[e.len() - 1].addrs == f[e.len() - 1].addrs);
        assert forall|i: int| 0 <= i < e.drop_last().len() implies (#[trigger] e.drop_last()[i]).addrs
            == f.drop_last()[i].addrs by {
            assert(e[i].addrs == f[i].addrs);
        }
        lemma_redials_ignore_status(e.drop_last(), f.drop_last());
    }
}

/// What two lists of actions tell the hooks is what the first tells them
/// followed by what the second tells them.
pub proof fn lemma_notices_in_parts(a: Seq<ActionView>, b: Seq<ActionView>)
    ensures
        notices(a + b) == notices(a) + notices(b),
    decreases b.len(),
{
    if b.len() == 0 {
        assert(a + b =~= a);
        assert(notices(a) + notices(b) =~= notices(a));
    } else {
        assert((a + b).drop_last() =~= a + b.drop_last());
        assert((a + b).last() == b.last());
        lemma_notices_in_parts(a, b.drop_last());
        assert((notices(a) + notices(b.drop_last())) + notice(b.last()) =~= notices(a) + (notices(
            b.drop_last(),
        ) + notice(b.last())));
    }
}

/// Actions that do not report the end of the loop do not tell the hooks
/// of it.
pub proof fn lemma_no_report_no_notice(a: Seq<ActionView>, i: int)
    requires
        forall|j: int| 0 <= j < a.len() ==> !(#[trigger] a[j] is NotifyStopped),
        0 <= i < notices(a).len(),
    ensures
        notices(a)[i] != Notice::Stopped,
    decreases a.len(),
{
    if a.len() > 0 {
        let init = a.drop_last();
        assert forall|j: int| 0 <= j < init.len() implies !(#[trigger] init[j] is NotifyStopped) by {
            assert(init[j] == a[j]);
        }
        assert(!(a[a.len() - 1] is NotifyStopped));
        if i < notices(init).len() {
            lemma_no_report_no_notice(init, i);
        }
    }
}

/// The hooks hear of the end exactly once. Let the input at position `k`
/// be the first that ends the loop of a running node, and let the hooks be
/// handed the actions of the run. Then the last thing they are told is
/// that the node stopped, and nothing they were told before says so.
pub proof fn lemma_hooks_hear_of_the_end_once(
    m: NodeModel,
    inputs: Seq<InputView>,
    k: int,
    i: int,
)
    requires
        m.phase == NodePhase::Running,
        0 <= k < inputs.len(),
        is_stop(inputs[k]),
        forall|j: int| 0 <= j < k ==> !is_stop(#[trigger] inputs[j]),
    ensures
        notices(ran(m, inputs).1) == notices(ran(m, inputs.take(k)).1).push(Notice::Stopped),
        0 <= i < notices(ran(m, inputs.take(k)).1).len() ==> notices(ran(m, inputs.take(k)).1)[i]
            != Notice::Stopped,
{
    let before = ran(m, inputs.take(k)).1;
    lemma_loop_ends_once(m, inputs, k, 0);
    assert(before.push(ActionView::NotifyStopped) =~= before + seq![ActionView::NotifyStopped]);
    lemma_notices_in_parts(before, seq![ActionView::NotifyStopped]);
    assert(notices(seq![ActionView::NotifyStopped]) =~= seq![Notice::Stopped]) by {
        let one = seq![ActionView::NotifyStopped];
        assert(one.drop_last().len() == 0);
        assert(notices(one.drop_last()) =~= Seq::<Notice>::empty());
        assert(one.last() == ActionView::NotifyStopped);
    }
    assert(notices(before) + seq![Notice::Stopped] =~= notices(before).push(Notice::Stopped));
    assert forall|j: int| 0 <= j < before.len() implies !(#[trigger] before[j] is NotifyStopped) by {
        lemma_loop_ends_once(m, inputs, k, j);
    }
    if 0 <= i < notices(before).len() {
        lemma_no_report_no_notice(before, i);
    }
}

/// How far a node has come in its life.
pub open spec fn rank(phase: NodePhase) -> nat {
    match phase {
        NodePhase::Starting => 0,
        NodePhase::Listening => 1,
        NodePhase::Running => 2,
        NodePhase::Stopping => 3,
        NodePhase::Stopped => 4,
    }
}

/// A node never goes back: starting it, the answer on its listener and
/// every turn of its loop leave it where it was or take it further, and
/// only a bound listener takes it into the running loop.
pub proof fn lemma_no_way_back(m: NodeModel, bootnode_valid: bool, listener: bool, input: InputView)
    ensures
        rank(m.phase) <= rank(started(m, bootnode_valid).0.phase),
        rank(m.phase) <= rank(bound(m, listener).0.phase),
        rank(m.phase) <= rank(stepped(m, input).0.phase),
        m.phase != NodePhase::Running && started(m, bootnode_valid).0.phase == NodePhase::Running
            ==> false,
        m.phase != NodePhase::Running && stepped(m, input).0.phase == NodePhase::Running ==> false,
        m.phase != NodePhase::Running && bound(m, listener).0.phase == NodePhase::Running ==> m.phase
            == NodePhase::Listening && listener,
{
}

} // verus!
