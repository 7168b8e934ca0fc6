//! Outbound frames: the JSON envelope `{"channel":<id>,"data":<payload>}`
//! that wraps each channel's payload. The market payload is the raw snapshot
//! value; the heartbeat payload is a quoted timestamp string.

use vstd::prelude::*;
use vstd::string::StringExecFns;
use crate::channel::Channel;
use crate::channel::spec_channel_id;

verus! {

/// The envelope text for a channel identifier and an already-encoded payload.
pub open spec fn spec_envelope(id: Seq<char>, payload: Seq<char>) -> Seq<char> {
    "{\"channel\":\""@ + id + "\",\"data\":"@ + payload + "}"@
}

/// The frame a channel produces on a tick: the market frame carries the
/// snapshot value verbatim, the heartbeat frame the timestamp as a JSON
/// string.
pub open spec fn spec_frame(c: Channel, snapshot: Seq<char>, now: Seq<char>) -> Seq<char> {
    match c {
        Channel::Market => spec_envelope(spec_channel_id(c), snapshot),
        Channel::Heartbeat => spec_envelope(spec_channel_id(c), "\""@ + now + "\""@),
    }
}

/// Build the envelope around an already-encoded payload.
pub fn envelope(id: &String, payload: &String) -> (r: String)
    ensures
        r@ == spec_envelope(id@, payload@),
{
    let mut r = String::from_str("{\"channel\":\"");
    r.append(id.as_str());
    r.append("\",\"data\":");
    r.append(payload.as_str());
    r.append("}");
    proof {
        assert(r@ =~= spec_envelope(id@, payload@));
    }
    r
}

/// Build the frame a channel sends on a tick, from the snapshot value and
/// the current timestamp.
pub fn frame(c: Channel, snapshot: &String, now: &String) -> (r: String)
    ensures
        r@ == spec_frame(c, snapshot@, now@),
{
    let id = crate::channel::channel_id(c);
    match c {
        Channel::Market => envelope(&id, snapshot),
        Channel::Heartbeat => {
            let mut quoted = String::from_str("\"");
            quoted.append(now.as_str());
            quoted.append("\"");
            proof {
                assert(quoted@ =~= "\""@ + now@ + "\""@);
            }
            envelope(&id, &quoted)
        },
    }
}

/// Frames of distinct channels are distinct texts, whatever their payloads:
/// the identifier embedded in the envelope tells them apart.
pub proof fn lemma_frames_distinct(s1: Seq<char>, n1: Seq<char>, s2: Seq<char>, n2: Seq<char>)
    ensures
        spec_frame(Channel::Market, s1, n1) != spec_frame(Channel::Heartbeat, s2, n2),
{
    reveal_strlit("{\"channel\":\"");
    reveal_strlit("market");
    reveal_strlit("heartbeat");
    let m = spec_frame(Channel::Market, s1, n1);
    let h = spec_frame(Channel::Heartbeat, s2, n2);
    assert(m[12] == 'm');
    assert(h[12] == 'h');
}

} // verus!
