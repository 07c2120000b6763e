//! Builders for the structured events the components share. Each contract
//! pins the event name and the exact attribute list.

use vstd::prelude::*;

use crate::host::Coin;
use crate::host::Event;
use crate::strings::dec_of;
use crate::strings::u128_to_dec;
use crate::strings::u64_to_dec;

verus! {

/// The text of a coin as events carry it: magnitude then denomination.
pub open spec fn coin_text(c: Coin) -> Seq<char> {
    dec_of(c.amount as nat) + c.denom@
}

pub fn create_transfer_event(
    id: u64,
    sender: &str,
    recipient: &str,
    amount: &Coin,
    remark: &Option<String>,
) -> (r: Event)
    ensures
        r@.name == "create_transfer"@,
        r@.attributes == {
            let base = seq![
                ("id"@, dec_of(id as nat)),
                ("sender"@, sender@),
                ("recipient"@, recipient@),
                ("amount"@, coin_text(*amount)),
            ];
            if remark is Some {
                base.push(("remark"@, remark->0@))
            } else {
                base
            }
        },
{
    let mut event = Event::new("create_transfer")
        .add_attribute("id", u64_to_dec(id))
        .add_attribute("sender", sender.to_owned())
        .add_attribute("recipient", recipient.to_owned())
        .add_attribute("amount", amount.to_text());

    if let Some(remark) = remark {
        event = event.add_attribute("remark", remark.clone());
    }

    event
}

pub fn claim_transfer_event(id: u64, claimer: &str, amount: &Coin) -> (r: Event)
    ensures
        r@.name == "claim_transfer"@,
        r@.attributes == seq![
            ("id"@, dec_of(id as nat)),
            ("claimer"@, claimer@),
            ("amount"@, coin_text(*amount)),
        ],
{
    Event::new("claim_transfer")
        .add_attribute("id", u64_to_dec(id))
        .add_attribute("claimer", claimer.to_owned())
        .add_attribute("amount", amount.to_text())
}

pub fn refund_transfer_event(id: u64, sender: &str, amount: &Coin) -> (r: Event)
    ensures
        r@.name == "refund_transfer"@,
        r@.attributes == seq![
            ("id"@, dec_of(id as nat)),
            ("sender"@, sender@),
            ("amount"@, coin_text(*amount)),
        ],
{
    Event::new("refund_transfer")
        .add_attribute("id", u64_to_dec(id))
        .add_attribute("sender", sender.to_owned())
        .add_attribute("amount", amount.to_text())
}

pub fn create_pool_event(id: u64, creator: &str, target: &Coin, memo: &Option<String>) -> (r:
    Event)
    ensures
        r@.name == "create_pool"@,
        r@.attributes == {
            let base = seq![
                ("id"@, dec_of(id as nat)),
                ("creator"@, creator@),
                ("target"@, coin_text(*target)),
            ];
            if memo is Some {
                base.push(("memo"@, memo->0@))
            } else {
                base
            }
        },
{
    let mut event = Event::new("create_pool")
        .add_attribute("id", u64_to_dec(id))
        .add_attribute("creator", creator.to_owned())
        .add_attribute("target", target.to_text());

    if let Some(memo) = memo {
        event = event.add_attribute("memo", memo.clone());
    }

    event
}

pub fn contribute_pool_event(id: u64, contributor: &str, amount: &u128, total: &u128) -> (r: Event)
    ensures
        r@.name == "contribute_pool"@,
        r@.attributes == seq![
            ("id"@, dec_of(id as nat)),
            ("contributor"@, contributor@),
            ("amount"@, dec_of(*amount as nat)),
            ("total"@, dec_of(*total as nat)),
        ],
{
    Event::new("contribute_pool")
        .add_attribute("id", u64_to_dec(id))
        .add_attribute("contributor", contributor.to_owned())
        .add_attribute("amount", u128_to_dec(*amount))
        .add_attribute("total", u128_to_dec(*total))
}

pub fn create_vault_event(id: u64, creator: &str, label: &str, denom: &str) -> (r: Event)
    ensures
        r@.name == "create_vault"@,
        r@.attributes == seq![
            ("id"@, dec_of(id as nat)),
            ("creator"@, creator@),
            ("label"@, label@),
            ("denom"@, denom@),
        ],
{
    Event::new("create_vault")
        .add_attribute("id", u64_to_dec(id))
        .add_attribute("creator", creator.to_owned())
        .add_attribute("label", label.to_owned())
        .add_attribute("denom", denom.to_owned())
}

pub fn deposit_vault_event(id: u64, depositor: &str, amount: &u128, shares: &u128) -> (r: Event)
    ensures
        r@.name == "deposit_vault"@,
        r@.attributes == seq![
            ("id"@, dec_of(id as nat)),
            ("depositor"@, depositor@),
            ("amount"@, dec_of(*amount as nat)),
            ("shares"@, dec_of(*shares as nat)),
        ],
{
    Event::new("deposit_vault")
        .add_attribute("id", u64_to_dec(id))
        .add_attribute("depositor", depositor.to_owned())
        .add_attribute("amount", u128_to_dec(*amount))
        .add_attribute("shares", u128_to_dec(*shares))
}

pub fn rebalance_vault_event(id: u64, rebalancer: &str, old_tvl: &u128, new_tvl: &u128) -> (r:
    Event)
    ensures
        r@.name == "rebalance_vault"@,
        r@.attributes == seq![
            ("id"@, dec_of(id as nat)),
            ("rebalancer"@, rebalancer@),
            ("old_tvl"@, dec_of(*old_tvl as nat)),
            ("new_tvl"@, dec_of(*new_tvl as nat)),
        ],
{
    Event::new("rebalance_vault")
        .add_attribute("id", u64_to_dec(id))
        .add_attribute("rebalancer", rebalancer.to_owned())
        .add_attribute("old_tvl", u128_to_dec(*old_tvl))
        .add_attribute("new_tvl", u128_to_dec(*new_tvl))
}

} // verus!
