//! Events the escrow case engine emits, with their exact ghost shapes.

use vstd::prelude::*;

use crate::host::Coin;
use crate::host::Event;
use crate::host::EventView;
use crate::strings::dec_of;
use crate::strings::join_comma;
use crate::strings::join_commas;
use crate::strings::u128_to_dec;
use crate::strings::u64_to_dec;

verus! {

pub open spec fn spec_evt_open_case(
    id: u64,
    parties: Seq<Seq<char>>,
    amount: u128,
    denom: Seq<char>,
    model: Seq<char>,
) -> EventView {
    EventView {
        name: "seimoney.open_case"@,
        attributes: seq![
            ("id"@, dec_of(id as nat)),
            ("parties"@, join_commas(parties)),
            ("amount"@, dec_of(amount as nat)),
            ("denom"@, denom),
            ("model"@, model),
        ],
    }
}

pub fn evt_open_case(id: u64, parties: &Vec<String>, amount: &Coin, model: &str) -> (r: Event)
    ensures
        r@ == spec_evt_open_case(
            id,
            parties@.map_values(|s: String| s@),
            amount.amount,
            amount.denom@,
            model@,
        ),
{
    let r = Event::new("seimoney.open_case")
        .add_attribute("id", u64_to_dec(id))
        .add_attribute("parties", join_comma(parties))
        .add_attribute("amount", u128_to_dec(amount.amount))
        .add_attribute("denom", amount.denom.clone())
        .add_attribute("model", model.to_owned());
    proof {
        assert(r@.attributes =~= spec_evt_open_case(
            id,
            parties@.map_values(|s: String| s@),
            amount.amount,
            amount.denom@,
            model@,
        ).attributes);
    }
    r
}

pub open spec fn spec_evt_approve(case_id: u64, approver: Seq<char>) -> EventView {
    EventView {
        name: "seimoney.approve"@,
        attributes: seq![("case_id"@, dec_of(case_id as nat)), ("approver"@, approver)],
    }
}

pub fn evt_approve(case_id: u64, approver: &str) -> (r: Event)
    ensures
        r@ == spec_evt_approve(case_id, approver@),
{
    let r = Event::new("seimoney.approve")
        .add_attribute("case_id", u64_to_dec(case_id))
        .add_attribute("approver", approver.to_owned());
    proof {
        assert(r@.attributes =~= spec_evt_approve(case_id, approver@).attributes);
    }
    r
}

pub open spec fn spec_evt_dispute(
    case_id: u64,
    disputer: Seq<char>,
    reason: Option<Seq<char>>,
) -> EventView {
    EventView {
        name: "seimoney.dispute"@,
        attributes: {
            let base = seq![("case_id"@, dec_of(case_id as nat)), ("disputer"@, disputer)];
            match reason {
                Some(text) => base.push(("reason"@, text)),
                None => base,
            }
        },
    }
}

pub fn evt_dispute(case_id: u64, disputer: &str, reason: &Option<String>) -> (r: Event)
    ensures
        r@ == spec_evt_dispute(case_id, disputer@, reason.deep_view()),
{
    let mut event = Event::new("seimoney.dispute")
        .add_attribute("case_id", u64_to_dec(case_id))
        .add_attribute("disputer", disputer.to_owned());

    if let Some(reason_text) = reason {
        event = event.add_attribute("reason", reason_text.clone());
    }
    proof {
        assert(event@.attributes =~= spec_evt_dispute(
            case_id,
            disputer@,
            reason.deep_view(),
        ).attributes);
    }
    event
}

pub open spec fn spec_evt_resolve(
    case_id: u64,
    resolver: Seq<char>,
    decision: Seq<char>,
) -> EventView {
    EventView {
        name: "seimoney.resolve"@,
        attributes: seq![
            ("case_id"@, dec_of(case_id as nat)),
            ("resolver"@, resolver),
            ("decision"@, decision),
        ],
    }
}

pub fn evt_resolve(case_id: u64, resolver: &str, decision: &str) -> (r: Event)
    ensures
        r@ == spec_evt_resolve(case_id, resolver@, decision@),
{
    let r = Event::new("seimoney.resolve")
        .add_attribute("case_id", u64_to_dec(case_id))
        .add_attribute("resolver", resolver.to_owned())
        .add_attribute("decision", decision.to_owned());
    proof {
        assert(r@.attributes =~= spec_evt_resolve(case_id, resolver@, decision@).attributes);
    }
    r
}

pub open spec fn spec_evt_release(
    case_id: u64,
    to: Seq<char>,
    amount: u128,
    denom: Seq<char>,
) -> EventView {
    EventView {
        name: "seimoney.release"@,
        attributes: seq![
            ("case_id"@, dec_of(case_id as nat)),
            ("to"@, to),
            ("amount"@, dec_of(amount as nat)),
            ("denom"@, denom),
        ],
    }
}

pub fn evt_release(case_id: u64, to: &str, amount: &Coin) -> (r: Event)
    ensures
        r@ == spec_evt_release(case_id, to@, amount.amount, amount.denom@),
{
    let r = Event::new("seimoney.release")
        .add_attribute("case_id", u64_to_dec(case_id))
        .add_attribute("to", to.to_owned())
        .add_attribute("amount", u128_to_dec(amount.amount))
        .add_attribute("denom", amount.denom.clone());
    proof {
        assert(r@.attributes =~= spec_evt_release(
            case_id,
            to@,
            amount.amount,
            amount.denom@,
        ).attributes);
    }
    r
}

pub open spec fn spec_evt_refund(
    case_id: u64,
    to: Seq<char>,
    amount: u128,
    denom: Seq<char>,
) -> EventView {
    EventView {
        name: "seimoney.refund"@,
        attributes: seq![
            ("case_id"@, dec_of(case_id as nat)),
            ("to"@, to),
            ("amount"@, dec_of(amount as nat)),
            ("denom"@, denom),
        ],
    }
}

pub fn evt_refund(case_id: u64, to: &str, amount: &Coin) -> (r: Event)
    ensures
        r@ == spec_evt_refund(case_id, to@, amount.amount, amount.denom@),
{
    let r = Event::new("seimoney.refund")
        .add_attribute("case_id", u64_to_dec(case_id))
        .add_attribute("to", to.to_owned())
        .add_attribute("amount", u128_to_dec(amount.amount))
        .add_attribute("denom", amount.denom.clone());
    proof {
        assert(r@.attributes =~= spec_evt_refund(
            case_id,
            to@,
            amount.amount,
            amount.denom@,
        ).attributes);
    }
    r
}

} // verus!
