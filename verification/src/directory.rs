//! The directory of known peers: one record per peer identifier.

use vstd::prelude::*;
use crate::peer::Peer;
use crate::peer::PeerView;
use crate::peer::opt_view;
use crate::text::same_text;

verus! {

/// The contents of a sequence of records, in order.
pub open spec fn views(records: Seq<Peer>) -> Seq<PeerView> {
    records.map_values(|p: Peer| p@)
}

/// The contents of a sequence of optional records, in order.
pub open spec fn opt_views(records: Seq<Option<Peer>>) -> Seq<Option<PeerView>> {
    records.map_values(|p: Option<Peer>| opt_view(p))
}

/// No two entries share an identifier.
pub open spec fn distinct_ids(e: Seq<PeerView>) -> bool {
    forall|i: int, j: int| 0 <= i < e.len() && 0 <= j < e.len() && i != j ==> e[i].id != e[j].id
}

/// Every entry lists each of its addresses once.
pub open spec fn distinct_addrs(e: Seq<PeerView>) -> bool {
    forall|i: int| 0 <= i < e.len() ==> (#[trigger] e[i]).addrs.no_duplicates()
}

/// Whether an entry for `id` exists.
pub open spec fn known(e: Seq<PeerView>, id: Seq<char>) -> bool {
    exists|i: int| 0 <= i < e.len() && (#[trigger] e[i]).id == id
}

/// The position of an entry for `id`, where there is one.
pub open spec fn index_of(e: Seq<PeerView>, id: Seq<char>) -> int {
    choose|i: int| 0 <= i < e.len() && (#[trigger] e[i]).id == id
}

/// The entry for `id`, if there is one.
pub open spec fn lookup(e: Seq<PeerView>, id: Seq<char>) -> Option<PeerView> {
    if known(e, id) {
        Some(e[index_of(e, id)])
    } else {
        None
    }
}

/// The entries after `r` was stored: it takes the place of the entry with
/// its identifier, or goes to the end if there was none.
pub open spec fn stored(e: Seq<PeerView>, r: PeerView) -> Seq<PeerView> {
    if known(e, r.id) {
        e.update(index_of(e, r.id), r)
    } else {
        e.push(r)
    }
}

/// The entries that loading leaves: each readable record is stored in turn,
/// each unreadable one (`None`) is passed over.
pub open spec fn loaded(s: Seq<Option<PeerView>>) -> Seq<PeerView>
    decreases s.len(),
{
    if s.len() == 0 {
        Seq::empty()
    } else {
        match s.last() {
            Some(r) => stored(loaded(s.drop_last()), r),
            None => loaded(s.drop_last()),
        }
    }
}

/// The directory seen as a mapping from identifier to record.
pub open spec fn as_map(e: Seq<PeerView>) -> Map<Seq<char>, PeerView> {
    Map::new(|id: Seq<char>| known(e, id), |id: Seq<char>| e[index_of(e, id)])
}

/// Where identifiers are distinct, the entry at position `i` is the one that
/// a lookup of its identifier finds.
pub proof fn lemma_index_of(e: Seq<PeerView>, i: int)
    requires
        distinct_ids(e),
        0 <= i < e.len(),
    ensures
        known(e, e[i].id),
        index_of(e, e[i].id) == i,
        lookup(e, e[i].id) == Some(e[i]),
{
    assert(e[i].id == e[i].id);
}

/// Storing keeps identifiers distinct and addresses listed once.
pub proof fn lemma_stored_wf(e: Seq<PeerView>, r: PeerView)
    requires
        distinct_ids(e),
    ensures
        distinct_ids(stored(e, r)),
        distinct_addrs(e) && r.addrs.no_duplicates() ==> distinct_addrs(stored(e, r)),
{
    let after = stored(e, r);
    if known(e, r.id) {
        let k = index_of(e, r.id);
        assert forall|i: int, j: int|
            0 <= i < after.len() && 0 <= j < after.len() && i != j implies after[i].id
            != after[j].id by {
            assert(after[i].id == e[i].id);
            assert(after[j].id == e[j].id);
        }
    } else {
        assert forall|i: int, j: int|
            0 <= i < after.len() && 0 <= j < after.len() && i != j implies after[i].id
            != after[j].id by {
            if i < e.len() && j < e.len() {
                assert(after[i].id == e[i].id);
                assert(after[j].id == e[j].id);
            } else if i < e.len() {
                assert(e[i].id != r.id);
            } else {
                assert(e[j].id != r.id);
            }
        }
    }
    if distinct_addrs(e) && r.addrs.no_duplicates() {
        assert forall|i: int| 0 <= i < after.len() implies (#[trigger] after[i]).addrs.no_duplicates() by {
            if known(e, r.id) {
                if i != index_of(e, r.id) {
                    assert(after[i] == e[i]);
                }
            } else {
                if i < e.len() {
                    assert(after[i] == e[i]);
                }
            }
        }
    }
}

/// A record that was stored is the one that a lookup of its identifier
/// finds, and the lookup of any other identifier finds what it found before.
pub proof fn lemma_store_then_lookup(e: Seq<PeerView>, r: PeerView, other: Seq<char>)
    requires
        distinct_ids(e),
    ensures
        lookup(stored(e, r), r.id) == Some(r),
        other != r.id ==> lookup(stored(e, r), other) == lookup(e, other),
{
    let after = stored(e, r);
    lemma_stored_wf(e, r);
    if known(e, r.id) {
        let k = index_of(e, r.id);
        assert(after[k] == r);
        lemma_index_of(after, k);
    } else {
        let k = e.len() as int;
        assert(after[k] == r);
        lemma_index_of(after, k);
    }
    if other != r.id {
        if known(e, other) {
            let i = index_of(e, other);
            assert(after[i] == e[i]);
            lemma_index_of(after, i);
        } else {
            if known(after, other) {
                let j = index_of(after, other);
                if j < e.len() {
                    assert(e[j].id == other);
                }
            }
        }
    }
}

/// Seen as a mapping, storing a record is an insertion under its identifier.
pub proof fn lemma_stored_as_map(e: Seq<PeerView>, r: PeerView)
    requires
        distinct_ids(e),
    ensures
        as_map(stored(e, r)) == as_map(e).insert(r.id, r),
{
    let after = stored(e, r);
    let m = as_map(e).insert(r.id, r);
    assert forall|id: Seq<char>| as_map(after).dom().contains(id) <==> m.dom().contains(id) by {
        lemma_store_then_lookup(e, r, id);
    }
    assert forall|id: Seq<char>| as_map(after).dom().contains(id) implies as_map(after)[id] == m[id] by {
        lemma_store_then_lookup(e, r, id);
    }
    assert(as_map(after) =~= m);
}

/// The peers that the node knows, one record for each identifier.
#[derive(Debug, Clone, PartialEq, Eq)]
pub struct PeerDirectory {
    records: Vec<Peer>,
}

impl PeerDirectory {
    /// The records in the order in which their peers first came to be known.
    pub closed spec fn entries(&self) -> Seq<PeerView> {
        views(self.records@)
    }

    /// Exactly one record per identifier, each with its addresses listed once.
    pub open spec fn wf(&self) -> bool {
        distinct_ids(self.entries()) && distinct_addrs(self.entries())
    }

    /// The directory as a mapping from identifier to record.
    pub open spec fn view(&self) -> Map<Seq<char>, PeerView> {
        as_map(self.entries())
    }

    /// A directory without records.
    pub fn new() -> (d: PeerDirectory)
        ensures
            d.wf(),
            d.entries() == Seq::<PeerView>::empty(),
    {
        let d = PeerDirectory { records: Vec::new() };
        assert(d.entries() =~= Seq::<PeerView>::empty());
        d
    }

    /// The number of records.
    pub fn len(&self) -> (n: usize)
        ensures
            n == self.entries().len(),
    {
        self.records.len()
    }

    fn find(&self, id: &str) -> (at: Option<usize>)
        ensures
            match at {
                Some(i) => i < self.entries().len() && self.entries()[i as int].id == id@,
                None => !known(self.entries(), id@),
            },
    {
        let mut i: usize = 0;
        while i < self.records.len()
            invariant
                i <= self.records.len(),
                forall|k: int| 0 <= k < i ==> self.entries()[k].id != id@,
            decreases self.records.len() - i,
        {
            if same_text(self.records[i].id.as_str(), id) {
                return Some(i);
            }
            i += 1;
        }
        None
    }

    /// The record kept for `id`, or `None` where the directory has none.
    pub fn get_peer(&self, id: &str) -> (found: Option<Peer>)
        requires
            self.wf(),
        ensures
            opt_view(found) == lookup(self.entries(), id@),
            found matches Some(p) ==> p.wf(),
    {
        match self.find(id) {
            Some(i) => {
                proof {
                    lemma_index_of(self.entries(), i as int);
                }
                Some(self.records[i].copy())
            },
            None => None,
        }
    }

    /// Stores `record` under its identifier, in place of the record that was
    /// there before, if any.
    pub fn upsert_peer(&mut self, record: Peer)
        requires
            old(self).wf(),
            record.wf(),
        ensures
            final(self).wf(),
            final(self).entries() == stored(old(self).entries(), record@),
    {
        let ghost before = self.entries();
        proof {
            lemma_stored_wf(before, record@);
        }
        match self.find(record.id.as_str()) {
            Some(i) => {
                proof {
                    lemma_index_of(before, i as int);
                }
                self.records[i] = record;
                assert(self.entries() =~= before.update(i as int, record@));
            },
            None => {
                self.records.push(record);
                assert(self.entries() =~= before.push(record@));
            },
        }
    }

    /// Every record, in the order in which the peers first came to be known.
    pub fn list_peers(&self) -> (all: Vec<Peer>)
        requires
            self.wf(),
        ensures
            views(all@) == self.entries(),
            forall|i: int| 0 <= i < all@.len() ==> (#[trigger] all@[i]).wf(),
    {
        let mut all: Vec<Peer> = Vec::new();
        let mut i: usize = 0;
        while i < self.records.len()
            invariant
                i <= self.records.len(),
                self.wf(),
                all@.len() == i,
                forall|k: int| 0 <= k < i ==> (#[trigger] all@[k])@ == self.entries()[k],
                forall|k: int| 0 <= k < i ==> (#[trigger] all@[k]).wf(),
            decreases self.records.len() - i,
        {
            let p = self.records[i].copy();
            assert(self.entries()[i as int].addrs.no_duplicates());
            all.push(p);
            i += 1;
        }
        assert(views(all@) =~= self.entries());
        all
    }

    /// Builds the directory from what a store held: the readable records are
    /// stored one after the other, so that of two with one identifier the
    /// later stays; a record that could not be read (`None`) is left out.
    pub fn from_stored(records: &Vec<Option<Peer>>) -> (d: PeerDirectory)
        requires
            forall|i: int| 0 <= i < records@.len() ==> (#[trigger] records@[i] matches Some(p) ==> p.wf()),
        ensures
            d.wf(),
            d.entries() == loaded(opt_views(records@)),
    {
        let mut d = PeerDirectory::new();
        let mut i: usize = 0;
        let ghost all = opt_views(records@);
        while i < records.len()
            invariant
                i <= records.len(),
                all == opt_views(records@),
                d.wf(),
                d.entries() == loaded(all.take(i as int)),
                forall|k: int| 0 <= k < records@.len() ==> (#[trigger] records@[k] matches Some(p) ==> p.wf()),
            decreases records.len() - i,
        {
            proof {
                assert(all.take(i + 1).drop_last() =~= all.take(i as int));
                assert(all.take(i + 1).last() == opt_view(records@[i as int]));
            }
            match &records[i] {
                Some(p) => {
                    d.upsert_peer(p.copy());
                },
                None => {},
            }
            i += 1;
        }
        assert(all.take(i as int) =~= all);
        d
    }
}

} // verus!
