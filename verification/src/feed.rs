//! The upstream feed client: the subscription request sent on connect, and
//! the rule that decides which upstream messages carry a ticker event worth
//! forwarding to the ingestion inlet.

use vstd::prelude::*;
use vstd::string::StringExecFns;
use crate::text::contains_text;
use crate::text::join;
use crate::text::spec_contains_text;
use crate::text::spec_decimal;
use crate::text::spec_join;
use crate::text::u8_decimal;

verus! {

/// The subscription request sent upstream when the feed connection opens:
/// a method, the streams asked for, and a request identifier.
pub struct Payload {
    method: String,
    params: Vec<String>,
    id: u8,
}

/// The JSON text of a subscription request.
pub open spec fn spec_payload_text(method: Seq<char>, params: Seq<Seq<char>>, id: nat) -> Seq<
    char,
> {
    "{\"method\": \""@ + method + "\", \"params\": [\""@ + spec_join(params, "\", \""@)
        + "\"], \"id\": "@ + spec_decimal(id) + "}"@
}

impl View for Payload {
    type V = (Seq<char>, Seq<Seq<char>>, u8);

    closed spec fn view(&self) -> (Seq<char>, Seq<Seq<char>>, u8) {
        (self.method@, self.params.deep_view(), self.id)
    }
}

impl Payload {
    /// The fixed request: subscribe to the ticker stream, request id 1.
    pub fn new() -> (r: Payload)
        ensures
            r@ == ("SUBSCRIBE"@, seq!["bnbusdt@ticker"@], 1u8),
    {
        let mut params: Vec<String> = Vec::new();
        params.push(String::from_str("bnbusdt@ticker"));
        let r = Payload { method: String::from_str("SUBSCRIBE"), params, id: 1 };
        proof {
            assert(r@.1 =~= seq!["bnbusdt@ticker"@]);
        }
        r
    }

    /// Render the request as JSON text.
    pub fn to_string(&self) -> (r: String)
        ensures
            r@ == spec_payload_text(self@.0, self@.1, self@.2 as nat),
    {
        let mut r = String::from_str("{\"method\": \"");
        r.append(self.method.as_str());
        r.append("\", \"params\": [\"");
        let joined = join(&self.params, "\", \"");
        r.append(joined.as_str());
        r.append("\"], \"id\": ");
        let id_text = u8_decimal(self.id);
        r.append(id_text.as_str());
        r.append("}");
        proof {
            assert(r@ =~= spec_payload_text(self@.0, self@.1, self@.2 as nat));
        }
        r
    }
}

/// The field text that a JSON document yields for a key: what parsing the
/// document and rendering the value found under the key gives, or nothing
/// when the document does not parse as JSON or has no such field. A function
/// of the document and key alone.
pub uninterp spec fn field_text_of(doc: Seq<char>, key: Seq<char>) -> Option<Seq<char>>;

/// Relies on serde_json::from_str::<Value>, serde_json::Value::get and
/// Display on Value: together they extract and render one field of a JSON
/// document, a deterministic function of the document text and the key.
#[verifier::external_body]
fn json_field_text(doc: &str, key: &str) -> (r: Option<String>)
    ensures
        r matches Some(f) ==> field_text_of(doc@, key@) == Some(f@),
        r is None ==> field_text_of(doc@, key@) is None,
{
    match serde_json::from_str::<serde_json::Value>(doc) {
        Ok(v) => v.get(key).map(|f| f.to_string()),
        Err(_) => None,
    }
}

/// The upstream feed client: holds the request to send on connect and the
/// endpoint to connect to. The transport loop lives outside; the decisions —
/// what to send, which messages carry a ticker — are here.
pub struct BinanceClient {
    payload: Payload,
    url: String,
}

impl BinanceClient {
    /// What the client asks the feed for.
    pub closed spec fn spec_payload(&self) -> (Seq<char>, Seq<Seq<char>>, u8) {
        self.payload@
    }

    /// The endpoint the client connects to.
    pub closed spec fn spec_url(&self) -> Seq<char> {
        self.url@
    }

    /// A client for the ticker stream at the public feed endpoint.
    pub fn new() -> (r: BinanceClient)
        ensures
            r.spec_payload() == ("SUBSCRIBE"@, seq!["bnbusdt@ticker"@], 1u8),
            r.spec_url() == "wss://stream.binance.com:9443/ws"@,
    {
        BinanceClient {
            payload: Payload::new(),
            url: String::from_str("wss://stream.binance.com:9443/ws"),
        }
    }

    /// The subscription request text the transport sends on connect.
    pub fn subscribe_text(&self) -> (r: String)
        ensures
            r@ == spec_payload_text(
                self.spec_payload().0,
                self.spec_payload().1,
                self.spec_payload().2 as nat,
            ),
    {
        self.payload.to_string()
    }

    /// The endpoint to connect to.
    pub fn url(&self) -> (r: &String)
        ensures
            r@ == self.spec_url(),
    {
        &self.url
    }

    /// The event-type channel of an upstream message: the text of its "e"
    /// field, or nothing when the message is not a JSON object carrying one.
    pub fn parse_channel(msg: &String) -> (r: Option<String>)
        ensures
            r matches Some(c) ==> field_text_of(msg@, "e"@) == Some(c@),
            r is None ==> field_text_of(msg@, "e"@) is None,
    {
        json_field_text(msg.as_str(), "e")
    }

    /// Whether an event-type channel marks a daily-ticker message. The
    /// upstream writes the field as a JSON string, so the text arrives with
    /// quotes around it; containment, not equality, decides.
    pub fn is_ticker_channel(channel: &String) -> (r: bool)
        ensures
            r == spec_contains_text(channel@, "24hrTicker"@),
    {
        contains_text(channel.as_str(), "24hrTicker")
    }
}

} // verus!
