//! Balances: transfers that respect the existential deposit, and reserving.

use vstd::prelude::*;
use crate::error::Error;
use crate::invariants::{
    conserves, keeps_counts, lemma_reserve_keeps_total, lemma_transfer_keeps_total, lemma_unreserve_keeps_total,
};
use crate::primitives::{AccountId, Balance};
use crate::state::{AccountData, State, StateView};
use crate::weight::capped;

verus! {

/// Whether `value` can move from `from` to `to`. The sender must have it. What the sender
/// keeps must not be below the existential deposit, unless the sender may die and keeps
/// nothing. What the receiver then has must reach the existential deposit and fit a balance.
pub open spec fn can_transfer(
    s: StateView,
    from: Seq<u8>,
    to: Seq<u8>,
    value: Balance,
    existential_deposit: Balance,
    keep_alive: bool,
) -> bool {
    let sender = s.balance(from);
    let receiver = s.balance(to);
    &&& sender.free >= value
    &&& from != to ==> {
        &&& sender.free - value >= existential_deposit || (!keep_alive && sender.free == value)
        &&& receiver.free + value >= existential_deposit
        &&& receiver.free + value <= u128::MAX
    }
}

/// The ledger after `value` moved from `from` to `to`.
pub open spec fn transferred(s: StateView, from: Seq<u8>, to: Seq<u8>,
    value: Balance) -> StateView {
    if from == to || value == 0 {
        s
    } else {
        let sender = s.balance(from);
        let receiver = s.balance(to);
        s.set_balance(
            from,
            AccountData { free: (sender.free - value) as u128, reserved: sender.reserved },
        ).set_balance(
            to,
            AccountData { free: (receiver.free + value) as u128, reserved: receiver.reserved },
        )
    }
}

/// The ledger after `amount` of the free balance of `who` was set aside.
pub open spec fn reserved(s: StateView, who: Seq<u8>, amount: Balance) -> StateView {
    let d = s.balance(who);
    if amount == 0 {
        s
    } else {
        s.set_balance(
            who,
            AccountData { free: (d.free - amount) as u128, reserved: (d.reserved
                + amount) as u128 },
        )
    }
}

/// The part of `amount` that can be released from what `who` has set aside: all that is set
/// aside, if that is less, and no more than the free balance can take.
pub open spec fn releasable(s: StateView, who: Seq<u8>, amount: Balance) -> Balance {
    let d = s.balance(who);
    capped(capped(amount as int, d.reserved as int), u128::MAX - d.free) as u128
}

/// The ledger after `amount` was released from what `who` has set aside.
pub open spec fn unreserved(s: StateView, who: Seq<u8>, amount: Balance) -> StateView {
    let d = s.balance(who);
    let part = releasable(s, who, amount);
    if part == 0 {
        s
    } else {
        s.set_balance(
            who,
            AccountData { free: (d.free + part) as u128, reserved: (d.reserved - part) as u128 },
        )
    }
}

/// Moves `value` from the free balance of `from` to that of `to`. A transfer of nothing
/// changes nothing and succeeds. Fails with `TransferFailed`, and changes nothing, unless
/// `can_transfer` holds.
pub fn transfer(
    state: &mut State,
    from: &AccountId,
    to: &AccountId,
    value: Balance,
    existential_deposit: Balance,
    keep_alive: bool,
) -> (r: Result<(), Error>)
    requires
        old(state).wf(),
    ensures
        final(state).wf(),
        final(state).extends(*old(state)),
        value == 0 || can_transfer(old(state)@, from@, to@, value, existential_deposit, keep_alive)
            <==> r.is_ok(),
        r.is_ok() ==> final(state)@ == transferred(old(state)@, from@, to@, value),
        r.is_err() ==> r == Err::<(), Error>(Error::TransferFailed) && final(state)@ == old(state)@,
        conserves(old(state)@, final(state)@),
        keeps_counts(old(state)@, final(state)@),
{
    proof {
        state.lemma_finitely_many_accounts();
        if value == 0 || can_transfer(state@, from@, to@, value, existential_deposit, keep_alive) {
            lemma_transfer_keeps_total(
                state@,
                from@,
                to@,
                value,
                existential_deposit,
                keep_alive,
            );
        }
    }
    if value == 0 {
        return Ok(());
    }
    let sender = state.balance(from);
    if sender.free < value {
        return Err(Error::TransferFailed);
    }
    if crate::table::bytes_eq(from.as_slice(), to.as_slice()) {
        return Ok(());
    }
    let rest = sender.free - value;
    if rest < existential_deposit && (keep_alive || rest != 0) {
        return Err(Error::TransferFailed);
    }
    let receiver = state.balance(to);
    if receiver.free > u128::MAX - value {
        return Err(Error::TransferFailed);
    }
    if receiver.free + value < existential_deposit {
        return Err(Error::TransferFailed);
    }
    state.set_balance(from, AccountData { free: rest, reserved: sender.reserved });
    state.set_balance(to, AccountData { free: receiver.free + value, reserved: receiver.reserved });
    Ok(())
}

/// Sets `amount` of the free balance of `who` aside. Fails, and changes nothing, when the
/// free balance is less than `amount` or the reserved balance cannot take it.
pub fn reserve(state: &mut State, who: &AccountId, amount: Balance) -> (r: Result<(), Error>)
    requires
        old(state).wf(),
    ensures
        final(state).wf(),
        final(state).extends(*old(state)),
        r.is_ok() <==> old(state)@.balance(who@).free >= amount && old(state)@.balance(
            who@,
        ).reserved + amount <= u128::MAX,
        r.is_ok() ==> final(state)@ == reserved(old(state)@, who@, amount),
        r.is_err() ==> r == Err::<(), Error>(Error::StorageDepositNotEnoughFunds) && final(state)@
            == old(state)@,
        conserves(old(state)@, final(state)@),
        keeps_counts(old(state)@, final(state)@),
{
    proof {
        state.lemma_finitely_many_accounts();
        if state@.balance(who@).free >= amount && state@.balance(who@).reserved + amount
            <= u128::MAX {
            lemma_reserve_keeps_total(state@, who@, amount);
        }
    }
    let d = state.balance(who);
    if d.free < amount || d.reserved > u128::MAX - amount {
        return Err(Error::StorageDepositNotEnoughFunds);
    }
    if amount == 0 {
        return Ok(());
    }
    state.set_balance(who, AccountData { free: d.free - amount, reserved: d.reserved + amount });
    Ok(())
}

/// Releases `amount` from what `who` has set aside, or as much of it as can be released,
/// and returns the amount released.
pub fn unreserve(state: &mut State, who: &AccountId, amount: Balance) -> (released: Balance)
    requires
        old(state).wf(),
    ensures
        final(state).wf(),
        final(state).extends(*old(state)),
        released == releasable(old(state)@, who@, amount),
        final(state)@ == unreserved(old(state)@, who@, amount),
        conserves(old(state)@, final(state)@),
        keeps_counts(old(state)@, final(state)@),
{
    proof {
        state.lemma_finitely_many_accounts();
        lemma_unreserve_keeps_total(state@, who@, amount);
    }
    let d = state.balance(who);
    let mut part = if amount <= d.reserved {
        amount
    } else {
        d.reserved
    };
    if part > u128::MAX - d.free {
        part = u128::MAX - d.free;
    }
    if part == 0 {
        return 0;
    }
    state.set_balance(who, AccountData { free: d.free + part, reserved: d.reserved - part });
    part
}

} // verus!
