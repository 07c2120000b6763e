//! Plain-value models of the host-chain interface: coins, block time,
//! caller information, and the declarative output of a command (bank
//! transfers, structured events, attributes).
//!
//! The engines never touch the host directly; a command handler receives
//! these values and returns a [`Response`], and the host settles the
//! transfers only after the state change commits.

use vstd::prelude::*;

use crate::strings::dec_of;
use crate::strings::u128_to_dec;

verus! {

pub const NANOS_PER_SECOND: u64 = 1_000_000_000;

/// A point in time, in nanoseconds since the epoch.
#[derive(Clone, Copy, Debug, PartialEq, Eq, Structural)]
pub struct Timestamp {
    pub nanos: u64,
}

impl Timestamp {
    pub fn from_nanos(nanos: u64) -> (r: Timestamp)
        ensures
            r.nanos == nanos,
    {
        Timestamp { nanos }
    }

    pub fn from_seconds(seconds: u64) -> (r: Timestamp)
        requires
            seconds * NANOS_PER_SECOND <= u64::MAX,
        ensures
            r.nanos == seconds * NANOS_PER_SECOND,
    {
        Timestamp { nanos: seconds * NANOS_PER_SECOND }
    }

    /// The whole seconds of this point in time.
    pub open spec fn spec_seconds(&self) -> u64 {
        self.nanos / NANOS_PER_SECOND
    }

    #[verifier::when_used_as_spec(spec_seconds)]
    pub fn seconds(&self) -> (r: u64)
        ensures
            r == self.spec_seconds(),
    {
        self.nanos / NANOS_PER_SECOND
    }

    pub fn plus_seconds(&self, seconds: u64) -> (r: Timestamp)
        requires
            self.nanos + seconds * NANOS_PER_SECOND <= u64::MAX,
        ensures
            r.nanos == self.nanos + seconds * NANOS_PER_SECOND,
    {
        Timestamp { nanos: self.nanos + seconds * NANOS_PER_SECOND }
    }

    pub fn minus_seconds(&self, seconds: u64) -> (r: Timestamp)
        requires
            seconds * NANOS_PER_SECOND <= self.nanos,
        ensures
            r.nanos == self.nanos - seconds * NANOS_PER_SECOND,
    {
        Timestamp { nanos: self.nanos - seconds * NANOS_PER_SECOND }
    }
}

/// An amount of one denomination.
#[derive(Clone, Debug, PartialEq, Eq)]
pub struct Coin {
    pub denom: String,
    pub amount: u128,
}

pub struct CoinView {
    pub denom: Seq<char>,
    pub amount: u128,
}

impl View for Coin {
    type V = CoinView;

    open spec fn view(&self) -> CoinView {
        CoinView { denom: self.denom@, amount: self.amount }
    }
}

impl DeepView for Coin {
    type V = CoinView;

    open spec fn deep_view(&self) -> CoinView {
        self@
    }
}

impl Coin {
    pub fn new(amount: u128, denom: &str) -> (r: Coin)
        ensures
            r@.amount == amount,
            r@.denom == denom@,
    {
        Coin { denom: denom.to_owned(), amount }
    }

    pub fn clone_coin(&self) -> (r: Coin)
        ensures
            r@ == self@,
    {
        Coin { denom: self.denom.clone(), amount: self.amount }
    }

    /// The host's text form of a coin: the decimal magnitude directly
    /// followed by the denomination.
    pub fn to_text(&self) -> (r: String)
        ensures
            r@ == dec_of(self.amount as nat) + self.denom@,
    {
        let mut s = u128_to_dec(self.amount);
        s.append(self.denom.as_str());
        s
    }
}

/// The identity of the caller and the funds attached to the call.
#[derive(Clone, Debug, PartialEq, Eq)]
pub struct MessageInfo {
    pub sender: String,
    pub funds: Vec<Coin>,
}

/// What the engines read of the host environment: the block time.
#[derive(Clone, Copy, Debug, PartialEq, Eq, Structural)]
pub struct Env {
    pub block_time: Timestamp,
}

/// An instruction to the host to send coins to an account, executed only
/// after the invocation's state changes are accepted.
#[derive(Clone, Debug, PartialEq, Eq)]
pub struct BankSend {
    pub to_address: String,
    pub amount: Vec<Coin>,
}

pub struct BankSendView {
    pub to_address: Seq<char>,
    pub amount: Seq<CoinView>,
}

impl View for BankSend {
    type V = BankSendView;

    open spec fn view(&self) -> BankSendView {
        BankSendView { to_address: self.to_address@, amount: self.amount.deep_view() }
    }
}

impl DeepView for BankSend {
    type V = BankSendView;

    open spec fn deep_view(&self) -> BankSendView {
        self@
    }
}

/// A structured event, named `<namespace>.<action>`, carrying key/value
/// attributes.
#[derive(Clone, Debug, PartialEq, Eq)]
pub struct Event {
    pub name: String,
    pub attributes: Vec<(String, String)>,
}

pub struct EventView {
    pub name: Seq<char>,
    pub attributes: Seq<(Seq<char>, Seq<char>)>,
}

impl View for Event {
    type V = EventView;

    open spec fn view(&self) -> EventView {
        EventView { name: self.name@, attributes: self.attributes.deep_view() }
    }
}

impl DeepView for Event {
    type V = EventView;

    open spec fn deep_view(&self) -> EventView {
        self@
    }
}

impl Event {
    pub fn new(name: &str) -> (r: Event)
        ensures
            r@.name == name@,
            r@.attributes =~= Seq::<(Seq<char>, Seq<char>)>::empty(),
    {
        let r = Event { name: name.to_owned(), attributes: Vec::new() };
        proof {
            assert(r.attributes.deep_view() =~= Seq::<(Seq<char>, Seq<char>)>::empty());
        }
        r
    }

    pub fn add_attribute(self, key: &str, value: String) -> (r: Event)
        ensures
            r@.name == self@.name,
            r@.attributes =~= self@.attributes.push((key@, value@)),
    {
        let mut attributes = self.attributes;
        let ghost before = attributes.deep_view();
        attributes.push((key.to_owned(), value));
        proof {
            assert(attributes.deep_view() =~= before.push((key@, attributes@.last().1@)));
        }
        Event { name: self.name, attributes }
    }
}

/// The declarative outcome of a successful command: bank instructions,
/// events, and plain attributes, all settled by the host afterwards.
#[derive(Clone, Debug, PartialEq, Eq)]
pub struct Response {
    pub messages: Vec<BankSend>,
    pub attributes: Vec<(String, String)>,
    pub events: Vec<Event>,
}

pub struct ResponseView {
    pub messages: Seq<BankSendView>,
    pub attributes: Seq<(Seq<char>, Seq<char>)>,
    pub events: Seq<EventView>,
}

impl View for Response {
    type V = ResponseView;

    open spec fn view(&self) -> ResponseView {
        ResponseView {
            messages: self.messages.deep_view(),
            attributes: self.attributes.deep_view(),
            events: self.events.deep_view(),
        }
    }
}

impl Response {
    pub fn new() -> (r: Response)
        ensures
            r@.messages =~= Seq::<BankSendView>::empty(),
            r@.attributes =~= Seq::<(Seq<char>, Seq<char>)>::empty(),
            r@.events =~= Seq::<EventView>::empty(),
    {
        let r = Response { messages: Vec::new(), attributes: Vec::new(), events: Vec::new() };
        proof {
            assert(r.messages.deep_view() =~= Seq::<BankSendView>::empty());
            assert(r.attributes.deep_view() =~= Seq::<(Seq<char>, Seq<char>)>::empty());
            assert(r.events.deep_view() =~= Seq::<EventView>::empty());
        }
        r
    }

    pub fn add_message(self, msg: BankSend) -> (r: Response)
        ensures
            r@.messages =~= self@.messages.push(msg@),
            r@.attributes == self@.attributes,
            r@.events == self@.events,
    {
        let mut messages = self.messages;
        let ghost before = messages.deep_view();
        let ghost mv = msg@;
        messages.push(msg);
        proof {
            assert(messages.deep_view() =~= before.push(mv));
        }
        Response { messages, attributes: self.attributes, events: self.events }
    }

    pub fn add_attribute(self, key: &str, value: &str) -> (r: Response)
        ensures
            r@.messages == self@.messages,
            r@.attributes =~= self@.attributes.push((key@, value@)),
            r@.events == self@.events,
    {
        let mut attributes = self.attributes;
        let ghost before = attributes.deep_view();
        attributes.push((key.to_owned(), value.to_owned()));
        proof {
            assert(attributes.deep_view() =~= before.push((key@, value@)));
        }
        Response { messages: self.messages, attributes, events: self.events }
    }

    pub fn add_event(self, event: Event) -> (r: Response)
        ensures
            r@.messages == self@.messages,
            r@.attributes == self@.attributes,
            r@.events =~= self@.events.push(event@),
    {
        let mut events = self.events;
        let ghost before = events.deep_view();
        let ghost ev = event@;
        events.push(event);
        proof {
            assert(events.deep_view() =~= before.push(ev));
        }
        Response { messages: self.messages, attributes: self.attributes, events }
    }
}

} // verus!
