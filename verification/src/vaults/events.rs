//! Events the vault accounting engine emits, with their exact ghost
//! shapes.

use vstd::prelude::*;

use crate::host::Coin;
use crate::host::Event;
use crate::host::EventView;
use crate::strings::dec_of;
use crate::strings::u128_to_dec;
use crate::strings::u64_to_dec;

verus! {

pub open spec fn spec_evt_create_vault(
    id: u64,
    label: Seq<char>,
    denom: Seq<char>,
    strategy: Seq<char>,
) -> EventView {
    EventView {
        name: "seimoney.create_vault"@,
        attributes: seq![
            ("id"@, dec_of(id as nat)),
            ("label"@, label),
            ("denom"@, denom),
            ("strategy"@, strategy),
        ],
    }
}

pub fn evt_create_vault(id: u64, label: &str, denom: &str, strategy: &str) -> (r: Event)
    ensures
        r@ == spec_evt_create_vault(id, label@, denom@, strategy@),
{
    let r = Event::new("seimoney.create_vault")
        .add_attribute("id", u64_to_dec(id))
        .add_attribute("label", label.to_owned())
        .add_attribute("denom", denom.to_owned())
        .add_attribute("strategy", strategy.to_owned());
    proof {
        assert(r@.attributes =~= spec_evt_create_vault(id, label@, denom@, strategy@).attributes);
    }
    r
}

pub open spec fn spec_evt_deposit_vault(
    vault_id: u64,
    user: Seq<char>,
    amount: u128,
    denom: Seq<char>,
    shares: u128,
) -> EventView {
    EventView {
        name: "seimoney.deposit_vault"@,
        attributes: seq![
            ("vault_id"@, dec_of(vault_id as nat)),
            ("user"@, user),
            ("amount"@, dec_of(amount as nat)),
            ("denom"@, denom),
            ("shares"@, dec_of(shares as nat)),
        ],
    }
}

pub fn evt_deposit_vault(vault_id: u64, user: &str, amount: &Coin, shares: &u128) -> (r: Event)
    ensures
        r@ == spec_evt_deposit_vault(vault_id, user@, amount.amount, amount.denom@, *shares),
{
    let r = Event::new("seimoney.deposit_vault")
        .add_attribute("vault_id", u64_to_dec(vault_id))
        .add_attribute("user", user.to_owned())
        .add_attribute("amount", u128_to_dec(amount.amount))
        .add_attribute("denom", amount.denom.clone())
        .add_attribute("shares", u128_to_dec(*shares));
    proof {
        assert(r@.attributes =~= spec_evt_deposit_vault(
            vault_id,
            user@,
            amount.amount,
            amount.denom@,
            *shares,
        ).attributes);
    }
    r
}

pub open spec fn spec_evt_withdraw_vault(
    vault_id: u64,
    user: Seq<char>,
    shares: u128,
    amount: u128,
    denom: Seq<char>,
) -> EventView {
    EventView {
        name: "seimoney.withdraw_vault"@,
        attributes: seq![
            ("vault_id"@, dec_of(vault_id as nat)),
            ("user"@, user),
            ("shares"@, dec_of(shares as nat)),
            ("amount"@, dec_of(amount as nat)),
            ("denom"@, denom),
        ],
    }
}

pub fn evt_withdraw_vault(vault_id: u64, user: &str, shares: &u128, amount: &Coin) -> (r: Event)
    ensures
        r@ == spec_evt_withdraw_vault(vault_id, user@, *shares, amount.amount, amount.denom@),
{
    let r = Event::new("seimoney.withdraw_vault")
        .add_attribute("vault_id", u64_to_dec(vault_id))
        .add_attribute("user", user.to_owned())
        .add_attribute("shares", u128_to_dec(*shares))
        .add_attribute("amount", u128_to_dec(amount.amount))
        .add_attribute("denom", amount.denom.clone());
    proof {
        assert(r@.attributes =~= spec_evt_withdraw_vault(
            vault_id,
            user@,
            *shares,
            amount.amount,
            amount.denom@,
        ).attributes);
    }
    r
}

pub open spec fn spec_evt_harvest_vault(vault_id: u64, amount: u128, denom: Seq<char>) -> EventView {
    EventView {
        name: "seimoney.harvest_vault"@,
        attributes: seq![
            ("vault_id"@, dec_of(vault_id as nat)),
            ("yield_amount"@, dec_of(amount as nat)),
            ("denom"@, denom),
        ],
    }
}

pub fn evt_harvest_vault(vault_id: u64, yield_amount: &Coin) -> (r: Event)
    ensures
        r@ == spec_evt_harvest_vault(vault_id, yield_amount.amount, yield_amount.denom@),
{
    let r = Event::new("seimoney.harvest_vault")
        .add_attribute("vault_id", u64_to_dec(vault_id))
        .add_attribute("yield_amount", u128_to_dec(yield_amount.amount))
        .add_attribute("denom", yield_amount.denom.clone());
    proof {
        assert(r@.attributes =~= spec_evt_harvest_vault(
            vault_id,
            yield_amount.amount,
            yield_amount.denom@,
        ).attributes);
    }
    r
}

pub open spec fn spec_evt_rebalance_vault(vault_id: u64, new_allocations: Seq<char>) -> EventView {
    EventView {
        name: "seimoney.rebalance_vault"@,
        attributes: seq![
            ("vault_id"@, dec_of(vault_id as nat)),
            ("new_allocations"@, new_allocations),
        ],
    }
}

pub fn evt_rebalance_vault(vault_id: u64, new_allocations: &str) -> (r: Event)
    ensures
        r@ == spec_evt_rebalance_vault(vault_id, new_allocations@),
{
    let r = Event::new("seimoney.rebalance_vault")
        .add_attribute("vault_id", u64_to_dec(vault_id))
        .add_attribute("new_allocations", new_allocations.to_owned());
    proof {
        assert(r@.attributes =~= spec_evt_rebalance_vault(vault_id, new_allocations@).attributes);
    }
    r
}

} // verus!
