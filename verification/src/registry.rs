//! The connection registry: a shared map from connection identity to that
//! connection's subscription set. Identities are unique — the registry never
//! holds two live entries for the same identity; `register` on a duplicate is
//! a no-op and `unregister` is idempotent.

use vstd::prelude::*;
use crate::channel::Channel;

verus! {

/// The set of channels one connection is subscribed to. Subscriptions start
/// empty and only ever grow; re-subscribing is a no-op.
#[derive(Clone, Copy)]
pub struct SubscriptionSet {
    market: bool,
    heartbeat: bool,
}

impl View for SubscriptionSet {
    type V = Set<Channel>;

    closed spec fn view(&self) -> Set<Channel> {
        Set::new(
            |c: Channel|
                match c {
                    Channel::Market => self.market,
                    Channel::Heartbeat => self.heartbeat,
                },
        )
    }
}

impl SubscriptionSet {
    /// A fresh connection is subscribed to nothing.
    pub fn new() -> (r: SubscriptionSet)
        ensures
            r@ == Set::<Channel>::empty(),
    {
        let r = SubscriptionSet { market: false, heartbeat: false };
        proof {
            assert(r@ =~= Set::<Channel>::empty());
        }
        r
    }

    /// Add a channel; adding one already present changes nothing.
    pub fn insert(&mut self, c: Channel)
        ensures
            final(self)@ == old(self)@.insert(c),
    {
        match c {
            Channel::Market => {
                self.market = true;
            },
            Channel::Heartbeat => {
                self.heartbeat = true;
            },
        }
        proof {
            assert(self@ =~= old(self)@.insert(c));
        }
    }

    /// Whether the connection is subscribed to `c`.
    pub fn contains(&self, c: Channel) -> (r: bool)
        ensures
            r == self@.contains(c),
    {
        match c {
            Channel::Market => self.market,
            Channel::Heartbeat => self.heartbeat,
        }
    }
}

/// One live entry of the registry: a connection identity and its
/// subscription state. The outbound sink that completes the connection is
/// owned by the transport layer, never shared through the registry.
pub struct Connection {
    pub id: u64,
    pub subs: SubscriptionSet,
}

/// The registry entries a sequence may hold: identities pairwise distinct.
pub open spec fn unique_ids(s: Seq<Connection>) -> bool {
    forall|i: int, j: int| 0 <= i < j < s.len() ==> s[i].id != s[j].id
}

/// The map a sequence of entries denotes; a later entry for the same
/// identity would win, but `unique_ids` rules that out.
pub open spec fn entries_map(s: Seq<Connection>) -> Map<u64, Set<Channel>>
    decreases s.len(),
{
    if s.len() == 0 {
        Map::empty()
    } else {
        entries_map(s.drop_last()).insert(s.last().id, s.last().subs@)
    }
}

/// Shared map from connection identity to per-connection state.
pub struct ConnectionRegistry {
    entries: Vec<Connection>,
}

impl View for ConnectionRegistry {
    type V = Map<u64, Set<Channel>>;

    closed spec fn view(&self) -> Map<u64, Set<Channel>> {
        entries_map(self.entries@)
    }
}

proof fn lemma_entries_map_contains(s: Seq<Connection>, id: u64)
    ensures
        entries_map(s).contains_key(id) <==> exists|i: int| 0 <= i < s.len() && s[i].id == id,
    decreases s.len(),
{
    if s.len() > 0 {
        lemma_entries_map_contains(s.drop_last(), id);
        if s.last().id == id {
            assert(s[s.len() - 1].id == id);
        } else if entries_map(s).contains_key(id) {
            let i = choose|i: int| 0 <= i < s.drop_last().len() && s.drop_last()[i].id == id;
            assert(s[i].id == id);
        } else if exists|i: int| 0 <= i < s.len() && s[i].id == id {
            let i = choose|i: int| 0 <= i < s.len() && s[i].id == id;
            assert(s.drop_last()[i].id == id);
        }
    }
}

proof fn lemma_entries_map_index(s: Seq<Connection>, i: int)
    requires
        unique_ids(s),
        0 <= i < s.len(),
    ensures
        entries_map(s).contains_key(s[i].id),
        entries_map(s)[s[i].id] == s[i].subs@,
    decreases s.len(),
{
    if i == s.len() - 1 {
    } else {
        lemma_entries_map_index(s.drop_last(), i);
        assert(s.drop_last()[i] == s[i]);
        assert(s.last().id != s[i].id);
    }
}

proof fn lemma_entries_map_absent(s: Seq<Connection>, id: u64)
    requires
        forall|i: int| 0 <= i < s.len() ==> s[i].id != id,
    ensures
        !entries_map(s).contains_key(id),
{
    lemma_entries_map_contains(s, id);
}

proof fn lemma_entries_map_remove(s: Seq<Connection>, i: int)
    requires
        unique_ids(s),
        0 <= i < s.len(),
    ensures
        entries_map(s.remove(i)) == entries_map(s).remove(s[i].id),
    decreases s.len(),
{
    let id = s[i].id;
    if i == s.len() - 1 {
        assert(s.remove(i) =~= s.drop_last());
        assert(forall|j: int| 0 <= j < s.drop_last().len() ==> s.drop_last()[j].id != id);
        lemma_entries_map_absent(s.drop_last(), id);
        assert(entries_map(s.drop_last()).insert(id, s.last().subs@).remove(id) =~= entries_map(
            s.drop_last(),
        ));
    } else {
        let t = s.drop_last();
        assert(unique_ids(t));
        lemma_entries_map_remove(t, i);
        assert(s.remove(i).drop_last() =~= t.remove(i));
        assert(s.remove(i).last() == s.last());
        assert(entries_map(s.remove(i)) == entries_map(t.remove(i)).insert(
            s.last().id,
            s.last().subs@,
        ));
        assert(s.last().id != id);
        assert(entries_map(t).remove(id).insert(s.last().id, s.last().subs@) =~= entries_map(
            t,
        ).insert(s.last().id, s.last().subs@).remove(id));
    }
}

proof fn lemma_entries_map_update(s: Seq<Connection>, i: int, c: Connection)
    requires
        unique_ids(s),
        0 <= i < s.len(),
        c.id == s[i].id,
    ensures
        entries_map(s.update(i, c)) == entries_map(s).insert(c.id, c.subs@),
    decreases s.len(),
{
    if i == s.len() - 1 {
        assert(s.update(i, c).drop_last() =~= s.drop_last());
        assert(s.update(i, c).last() == c);
        assert(entries_map(s).insert(s.last().id, s.last().subs@).insert(c.id, c.subs@)
            =~= entries_map(s.drop_last()).insert(c.id, c.subs@));
    } else {
        let t = s.drop_last();
        assert(unique_ids(t));
        lemma_entries_map_update(t, i, c);
        assert(s.update(i, c).drop_last() =~= t.update(i, c));
        assert(s.update(i, c).last() == s.last());
        assert(entries_map(s.update(i, c)) == entries_map(t.update(i, c)).insert(
            s.last().id,
            s.last().subs@,
        ));
        assert(s.last().id != c.id);
        assert(entries_map(t).insert(c.id, c.subs@).insert(s.last().id, s.last().subs@)
            =~= entries_map(t).insert(s.last().id, s.last().subs@).insert(c.id, c.subs@));
    }
}

impl ConnectionRegistry {
    /// The registry invariant: no two live entries share an identity.
    pub closed spec fn wf(&self) -> bool {
        unique_ids(self.entries@)
    }

    /// The identities currently registered, in registration order.
    pub closed spec fn ids_seq(&self) -> Seq<u64> {
        self.entries@.map_values(|c: Connection| c.id)
    }

    /// The registry never contains two live entries under the same
    /// connection identity.
    pub proof fn lemma_no_duplicate_identities(&self)
        requires
            self.wf(),
        ensures
            forall|i: int, j: int|
                0 <= i < j < self.ids_seq().len() ==> self.ids_seq()[i] != self.ids_seq()[j],
    {
    }

    /// Runtime check of the registry invariant, for callers outside the
    /// verified world: the library's own operations keep the invariant, so
    /// this only ever returns `true` for a registry they built.
    pub fn well_formed(&self) -> (r: bool)
        ensures
            r == self.wf(),
    {
        let n = self.entries.len();
        let mut i: usize = 0;
        while i < n
            invariant
                n == self.entries@.len(),
                i <= n,
                forall|a: int, b: int|
                    0 <= a < b < n && a < i ==> self.entries@[a].id != self.entries@[b].id,
            decreases n - i,
        {
            let mut j: usize = i + 1;
            while j < n
                invariant
                    n == self.entries@.len(),
                    i < n,
                    i + 1 <= j <= n,
                    forall|b: int| i < b < j ==> self.entries@[i as int].id != self.entries@[b].id,
                    forall|a: int, b: int|
                        0 <= a < b < n && a < i ==> self.entries@[a].id != self.entries@[b].id,
                decreases n - j,
            {
                if self.entries[i].id == self.entries[j].id {
                    return false;
                }
                j = j + 1;
            }
            i = i + 1;
        }
        true
    }

    /// An empty registry.
    pub fn new() -> (r: ConnectionRegistry)
        ensures
            r@ == Map::<u64, Set<Channel>>::empty(),
            r.wf(),
    {
        ConnectionRegistry { entries: Vec::new() }
    }

    fn find_index(&self, id: u64) -> (r: Option<usize>)
        ensures
            match r {
                Some(i) => i < self.entries@.len() && self.entries@[i as int].id == id,
                None => forall|i: int| 0 <= i < self.entries@.len() ==> self.entries@[i].id != id,
            },
    {
        let mut i: usize = 0;
        while i < self.entries.len()
            invariant
                i <= self.entries@.len(),
                forall|j: int| 0 <= j < i ==> self.entries@[j].id != id,
            decreases self.entries@.len() - i,
        {
            if self.entries[i].id == id {
                return Some(i);
            }
            i = i + 1;
        }
        None
    }

    /// Whether an entry for `id` is live.
    pub fn contains(&self, id: u64) -> (r: bool)
        ensures
            r == self@.contains_key(id),
    {
        proof {
            lemma_entries_map_contains(self.entries@, id);
        }
        self.find_index(id).is_some()
    }

    /// Register a fresh connection under `id` with no subscriptions.
    /// A duplicate identity is refused: the registry is left unchanged and
    /// the call reports failure.
    pub fn register(&mut self, id: u64) -> (r: bool)
        requires
            old(self).wf(),
        ensures
            final(self).wf(),
            r == !old(self)@.contains_key(id),
            old(self)@.contains_key(id) ==> final(self)@ == old(self)@,
            !old(self)@.contains_key(id) ==> final(self)@ == old(self)@.insert(
                id,
                Set::<Channel>::empty(),
            ),
    {
        proof {
            lemma_entries_map_contains(self.entries@, id);
        }
        match self.find_index(id) {
            Some(_) => false,
            None => {
                let subs = SubscriptionSet::new();
                let c = Connection { id, subs };
                self.entries.push(c);
                proof {
                    assert(self.entries@.drop_last() =~= old(self).entries@);
                    assert(self.entries@.last() == c);
                }
                true
            },
        }
    }

    /// Remove the entry for `id`, if any. Idempotent: removing an absent
    /// identity changes nothing.
    pub fn unregister(&mut self, id: u64)
        requires
            old(self).wf(),
        ensures
            final(self).wf(),
            final(self)@ == old(self)@.remove(id),
    {
        match self.find_index(id) {
            Some(i) => {
                proof {
                    lemma_entries_map_remove(self.entries@, i as int);
                }
                self.entries.remove(i);
                proof {
                    assert(unique_ids(self.entries@));
                }
            },
            None => {
                proof {
                    lemma_entries_map_absent(self.entries@, id);
                    assert(self@.remove(id) =~= self@);
                }
            },
        }
    }

    /// Add channel `c` to the subscriptions of `id`. Unknown identities are
    /// left alone; re-subscribing is a no-op on the subscription set.
    pub fn subscribe(&mut self, id: u64, c: Channel)
        requires
            old(self).wf(),
        ensures
            final(self).wf(),
            old(self)@.contains_key(id) ==> final(self)@ == old(self)@.insert(
                id,
                old(self)@[id].insert(c),
            ),
            !old(self)@.contains_key(id) ==> final(self)@ == old(self)@,
    {
        proof {
            lemma_entries_map_contains(self.entries@, id);
        }
        match self.find_index(id) {
            Some(i) => {
                proof {
                    lemma_entries_map_index(self.entries@, i as int);
                }
                let mut subs = self.entries[i].subs;
                subs.insert(c);
                let updated = Connection { id, subs };
                proof {
                    lemma_entries_map_update(self.entries@, i as int, updated);
                }
                self.entries.set(i, updated);
            },
            None => {},
        }
    }

    /// The subscription set of `id`, or nothing if the identity is not live.
    pub fn subscriptions(&self, id: u64) -> (r: Option<SubscriptionSet>)
        requires
            self.wf(),
        ensures
            match r {
                Some(s) => self@.contains_key(id) && s@ == self@[id],
                None => !self@.contains_key(id),
            },
    {
        proof {
            lemma_entries_map_contains(self.entries@, id);
        }
        match self.find_index(id) {
            Some(i) => {
                proof {
                    lemma_entries_map_index(self.entries@, i as int);
                }
                Some(self.entries[i].subs)
            },
            None => None,
        }
    }

    /// A snapshot of the live identities, for iterating a broadcast.
    pub fn ids(&self) -> (r: Vec<u64>)
        ensures
            r@ == self.ids_seq(),
            forall|k: int| 0 <= k < r@.len() ==> self@.contains_key(r@[k]),
            forall|id: u64| self@.contains_key(id) ==> r@.contains(id),
    {
        let mut v: Vec<u64> = Vec::new();
        let mut i: usize = 0;
        proof {
            assert(v@ =~= self.ids_seq().take(0));
        }
        while i < self.entries.len()
            invariant
                i <= self.entries@.len(),
                v@ =~= self.ids_seq().take(i as int),
            decreases self.entries@.len() - i,
        {
            v.push(self.entries[i].id);
            proof {
                assert(v@ =~= self.ids_seq().take(i as int + 1));
            }
            i = i + 1;
        }
        proof {
            assert(v@ =~= self.ids_seq());
            assert forall|k: int| 0 <= k < v@.len() implies self@.contains_key(v@[k]) by {
                lemma_entries_map_contains(self.entries@, v@[k]);
                assert(self.entries@[k].id == v@[k]);
            }
            assert forall|id: u64| self@.contains_key(id) implies v@.contains(id) by {
                lemma_entries_map_contains(self.entries@, id);
                let k = choose|k: int| 0 <= k < self.entries@.len() && self.entries@[k].id == id;
                assert(v@[k] == id);
            }
        }
        v
    }
}

} // verus!
