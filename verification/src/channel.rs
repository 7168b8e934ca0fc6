//! The channel catalog: the fixed set of channel identifiers a client may
//! subscribe to, their declaration order, and the subscription rule (an
//! inbound message subscribes exactly when it equals a known identifier).

use vstd::prelude::*;
use vstd::string::StringExecFns;

verus! {

/// A known broadcast channel. `Market` carries the latest ingested feed
/// value; `Heartbeat` carries a locally produced timestamp.
#[derive(Clone, Copy, PartialEq, Eq, Structural, Debug)]
pub enum Channel {
    Market,
    Heartbeat,
}

/// The catalog in declaration order: the order channels are evaluated on a
/// broadcast tick.
pub open spec fn catalog() -> Seq<Channel> {
    seq![Channel::Market, Channel::Heartbeat]
}

/// The text identifier of a channel, as clients write it.
pub open spec fn spec_channel_id(c: Channel) -> Seq<char> {
    match c {
        Channel::Market => "market"@,
        Channel::Heartbeat => "heartbeat"@,
    }
}

/// The subscription rule: a message names a channel exactly when it equals
/// that channel's identifier; every other message names none.
pub open spec fn spec_parse_subscription(msg: Seq<char>) -> Option<Channel> {
    if msg == spec_channel_id(Channel::Market) {
        Some(Channel::Market)
    } else if msg == spec_channel_id(Channel::Heartbeat) {
        Some(Channel::Heartbeat)
    } else {
        None
    }
}

/// The catalog as a vector, in declaration order.
pub fn channel_list() -> (r: Vec<Channel>)
    ensures
        r@ == catalog(),
{
    let mut v: Vec<Channel> = Vec::new();
    v.push(Channel::Market);
    v.push(Channel::Heartbeat);
    proof {
        assert(v@ =~= catalog());
    }
    v
}

/// The identifier of a channel as an owned string.
pub fn channel_id(c: Channel) -> (r: String)
    ensures
        r@ == spec_channel_id(c),
{
    match c {
        Channel::Market => String::from_str("market"),
        Channel::Heartbeat => String::from_str("heartbeat"),
    }
}

/// Decide which channel, if any, an inbound message subscribes to.
pub fn parse_subscription(msg: &String) -> (r: Option<Channel>)
    ensures
        r == spec_parse_subscription(msg@),
{
    let market = String::from_str("market");
    let heartbeat = String::from_str("heartbeat");
    if *msg == market {
        Some(Channel::Market)
    } else if *msg == heartbeat {
        Some(Channel::Heartbeat)
    } else {
        None
    }
}

} // verus!
