//! The per-connection actor: one per accepted connection, it multiplexes
//! inbound subscription messages with a periodic broadcast tick over a
//! single outbound sink. The transport loop performs the waiting and the
//! sends; every decision — what a tick sends, what an inbound message
//! changes, when the actor closes and deregisters — is made here.

use vstd::prelude::*;
use crate::channel::Channel;
use crate::channel::catalog;
use crate::channel::channel_list;
use crate::channel::parse_subscription;
use crate::channel::spec_parse_subscription;
use crate::frame::frame;
use crate::frame::lemma_frames_distinct;
use crate::frame::spec_frame;
use crate::registry::ConnectionRegistry;
use crate::registry::SubscriptionSet;

verus! {

/// The two states of a connection actor. `Closed` is terminal: the actor's
/// registry entry is gone and no further tick or inbound event is handled.
pub enum ActorState {
    Active,
    Closed,
}

/// One actor per accepted connection. The actor owns its connection's
/// outbound sink exclusively; the registry holds only identity and
/// subscription state.
pub struct ConnectionActor {
    pub id: u64,
    pub state: ActorState,
}

/// The frames a tick sends, for the channels of `order` in order: one frame
/// per subscribed channel, skipping the rest.
pub open spec fn frames_for(
    order: Seq<Channel>,
    subs: Set<Channel>,
    snapshot: Seq<char>,
    now: Seq<char>,
) -> Seq<Seq<char>>
    decreases order.len(),
{
    if order.len() == 0 {
        Seq::empty()
    } else {
        let head = if subs.contains(order[0]) {
            seq![spec_frame(order[0], snapshot, now)]
        } else {
            Seq::<Seq<char>>::empty()
        };
        head + frames_for(order.drop_first(), subs, snapshot, now)
    }
}

/// What one broadcast tick sends to a connection with subscriptions `subs`:
/// the subscribed channels' frames, in catalog declaration order.
pub open spec fn spec_tick_frames(subs: Set<Channel>, snapshot: Seq<char>, now: Seq<char>) -> Seq<
    Seq<char>,
> {
    frames_for(catalog(), subs, snapshot, now)
}

/// Relies on chrono::Utc::now and its Display form: a fresh wall-clock
/// timestamp as text. The value depends on the clock, so nothing is assumed
/// of it.
#[verifier::external_body]
fn current_timestamp() -> (r: String) {
    chrono::Utc::now().to_string()
}

proof fn lemma_tick_frames_shape(subs: Set<Channel>, snapshot: Seq<char>, now: Seq<char>)
    ensures
        spec_tick_frames(subs, snapshot, now) == (if subs.contains(Channel::Market) {
            if subs.contains(Channel::Heartbeat) {
                seq![
                    spec_frame(Channel::Market, snapshot, now),
                    spec_frame(Channel::Heartbeat, snapshot, now),
                ]
            } else {
                seq![spec_frame(Channel::Market, snapshot, now)]
            }
        } else {
            if subs.contains(Channel::Heartbeat) {
                seq![spec_frame(Channel::Heartbeat, snapshot, now)]
            } else {
                Seq::<Seq<char>>::empty()
            }
        }),
{
    let cat = catalog();
    assert(cat.drop_first() =~= seq![Channel::Heartbeat]);
    assert(seq![Channel::Heartbeat].drop_first() =~= Seq::<Channel>::empty());
    assert(frames_for(Seq::<Channel>::empty(), subs, snapshot, now) =~= Seq::<Seq<char>>::empty());
    assert(frames_for(seq![Channel::Heartbeat], subs, snapshot, now) =~= (if subs.contains(
        Channel::Heartbeat,
    ) {
        seq![spec_frame(Channel::Heartbeat, snapshot, now)]
    } else {
        Seq::<Seq<char>>::empty()
    }));
    assert(frames_for(cat, subs, snapshot, now) =~= (if subs.contains(Channel::Market) {
        if subs.contains(Channel::Heartbeat) {
            seq![
                spec_frame(Channel::Market, snapshot, now),
                spec_frame(Channel::Heartbeat, snapshot, now),
            ]
        } else {
            seq![spec_frame(Channel::Market, snapshot, now)]
        }
    } else {
        if subs.contains(Channel::Heartbeat) {
            seq![spec_frame(Channel::Heartbeat, snapshot, now)]
        } else {
            Seq::<Seq<char>>::empty()
        }
    }));
}

impl ConnectionActor {
    /// Accept a connection: register its identity with an empty subscription
    /// set and hand back the actor, in state `Active`. A duplicate identity
    /// is refused — the registry is unchanged and no actor is made.
    pub fn accept(reg: &mut ConnectionRegistry, id: u64) -> (r: Option<ConnectionActor>)
        requires
            old(reg).wf(),
        ensures
            final(reg).wf(),
            old(reg)@.contains_key(id) ==> final(reg)@ == old(reg)@ && r is None,
            !old(reg)@.contains_key(id) ==> final(reg)@ == old(reg)@.insert(
                id,
                Set::<Channel>::empty(),
            ) && (r matches Some(a) && a.id == id && a.state is Active),
    {
        if reg.register(id) {
            Some(ConnectionActor { id, state: ActorState::Active })
        } else {
            None
        }
    }

    /// Handle one inbound message: a message that names a catalog channel is
    /// added to this connection's subscriptions; any other message changes
    /// nothing. No acknowledgment, no error.
    pub fn on_inbound(&self, reg: &mut ConnectionRegistry, msg: &String)
        requires
            old(reg).wf(),
            self.state is Active,
        ensures
            final(reg).wf(),
            match spec_parse_subscription(msg@) {
                Some(c) => if old(reg)@.contains_key(self.id) {
                    final(reg)@ == old(reg)@.insert(self.id, old(reg)@[self.id].insert(c))
                } else {
                    final(reg)@ == old(reg)@
                },
                None => final(reg)@ == old(reg)@,
            },
    {
        match parse_subscription(msg) {
            Some(c) => reg.subscribe(self.id, c),
            None => {},
        }
    }

    /// The frames this tick must send, in catalog order, given the
    /// connection's subscriptions, the snapshot value and the current
    /// timestamp. The transport sends them in order and stops at the first
    /// failure.
    pub fn tick_frames(subs: &SubscriptionSet, snapshot: &String, now: &String) -> (r: Vec<String>)
        ensures
            r@.map_values(|f: String| f@) == spec_tick_frames(subs@, snapshot@, now@),
    {
        let order = channel_list();
        let mut r: Vec<String> = Vec::new();
        if subs.contains(order[0]) {
            r.push(frame(order[0], snapshot, now));
        }
        if subs.contains(order[1]) {
            r.push(frame(order[1], snapshot, now));
        }
        proof {
            lemma_tick_frames_shape(subs@, snapshot@, now@);
            assert(r@.map_values(|f: String| f@) =~= spec_tick_frames(subs@, snapshot@, now@));
        }
        r
    }

    /// The frames for a tick taken now: reads the wall clock for the
    /// heartbeat payload and computes the frames of `tick_frames` for it.
    pub fn tick_frames_now(subs: &SubscriptionSet, snapshot: &String) -> (r: Vec<String>)
        ensures
            exists|now: Seq<char>|
                r@.map_values(|f: String| f@) == spec_tick_frames(subs@, snapshot@, now),
    {
        let now = current_timestamp();
        let r = Self::tick_frames(subs, snapshot, &now);
        proof {
            assert(r@.map_values(|f: String| f@) == spec_tick_frames(subs@, snapshot@, now@));
        }
        r
    }

    /// A send on the sink failed: remove this connection's registry entry —
    /// other connections' entries are untouched — and close. The rest of the
    /// tick's frames are not attempted.
    pub fn on_send_failure(&mut self, reg: &mut ConnectionRegistry)
        requires
            old(reg).wf(),
            old(self).state is Active,
        ensures
            final(reg).wf(),
            final(reg)@ == old(reg)@.remove(old(self).id),
            final(self).id == old(self).id,
            final(self).state is Closed,
    {
        reg.unregister(self.id);
        self.state = ActorState::Closed;
    }

    /// The inbound stream reported closure or a transport error: same
    /// outcome as a send failure — deregister and close.
    pub fn on_stream_closed(&mut self, reg: &mut ConnectionRegistry)
        requires
            old(reg).wf(),
            old(self).state is Active,
        ensures
            final(reg).wf(),
            final(reg)@ == old(reg)@.remove(old(self).id),
            final(self).id == old(self).id,
            final(self).state is Closed,
    {
        reg.unregister(self.id);
        self.state = ActorState::Closed;
    }
}

/// A connection subscribed to the market channel receives, on its next tick,
/// the market envelope whose data is exactly the snapshot value read at tick
/// time — and it is the first frame of that tick.
pub proof fn lemma_market_frame_delivered(subs: Set<Channel>, snapshot: Seq<char>, now: Seq<char>)
    requires
        subs.contains(Channel::Market),
    ensures
        spec_tick_frames(subs, snapshot, now).len() > 0,
        spec_tick_frames(subs, snapshot, now)[0] == spec_frame(Channel::Market, snapshot, now),
        spec_tick_frames(subs, snapshot, now).contains(spec_frame(Channel::Market, snapshot, now)),
{
    lemma_tick_frames_shape(subs, snapshot, now);
    let frames = spec_tick_frames(subs, snapshot, now);
    assert(frames[0] == spec_frame(Channel::Market, snapshot, now));
}

/// A market subscriber sees the freshest ingested value: after any non-empty
/// run of ingestion writes completes, the next tick's first frame is the
/// market envelope carrying exactly the last value written.
pub proof fn lemma_subscriber_sees_last_write(
    init: Seq<char>,
    writes: Seq<Seq<char>>,
    subs: Set<Channel>,
    now: Seq<char>,
)
    requires
        writes.len() > 0,
        subs.contains(Channel::Market),
    ensures
        spec_tick_frames(subs, crate::snapshot::apply_sets(init, writes), now)[0] == spec_frame(
            Channel::Market,
            writes.last(),
            now,
        ),
{
    crate::snapshot::lemma_last_write_wins(init, writes);
    lemma_market_frame_delivered(subs, writes.last(), now);
}

/// A connection not subscribed to a channel never receives that channel's
/// envelope: no tick frame equals the unsubscribed channel's frame.
pub proof fn lemma_unsubscribed_channel_never_sent(
    c: Channel,
    subs: Set<Channel>,
    snapshot: Seq<char>,
    now: Seq<char>,
)
    requires
        !subs.contains(c),
    ensures
        !spec_tick_frames(subs, snapshot, now).contains(spec_frame(c, snapshot, now)),
{
    lemma_tick_frames_shape(subs, snapshot, now);
    let frames = spec_tick_frames(subs, snapshot, now);
    assert forall|k: int| 0 <= k < frames.len() implies frames[k] != spec_frame(
        c,
        snapshot,
        now,
    ) by {
        lemma_frames_distinct(snapshot, now, snapshot, now);
        match c {
            Channel::Market => {
                assert(frames[k] == spec_frame(Channel::Heartbeat, snapshot, now));
            },
            Channel::Heartbeat => {
                assert(frames[k] == spec_frame(Channel::Market, snapshot, now));
            },
        }
    }
    if frames.contains(spec_frame(c, snapshot, now)) {
        let k = choose|k: int| 0 <= k < frames.len() && frames[k] == spec_frame(c, snapshot, now);
        assert(false);
    }
}

} // verus!
