//! The storage deposit meter: balance owed for storage that a call creates, or owed back
//! for storage that it frees.

use vstd::prelude::*;
use crate::error::Error;
use crate::primitives::Balance;
use crate::weight::{capped, floor_sub, saturating_mul_u128};

verus! {

/// A signed amount of balance: what the origin has to pay, or what it gets back.
#[derive(Clone, Copy, Debug, PartialEq, Eq, Structural)]
pub enum StorageDeposit {
    /// Storage shrank: the amount is returned to the origin.
    Refund(Balance),
    /// Storage grew: the amount is taken from the origin.
    Charge(Balance),
}

impl StorageDeposit {
    /// The amount as a signed number, charges positive.
    pub open spec fn net(self) -> int {
        match self {
            StorageDeposit::Charge(a) => a as int,
            StorageDeposit::Refund(a) => -(a as int),
        }
    }

    pub open spec fn spec_saturating_add(self, rhs: StorageDeposit) -> StorageDeposit {
        match (self, rhs) {
            (StorageDeposit::Charge(l), StorageDeposit::Charge(r)) => StorageDeposit::Charge(
                capped(l + r, u128::MAX as int) as u128,
            ),
            (StorageDeposit::Refund(l), StorageDeposit::Refund(r)) => StorageDeposit::Refund(
                capped(l + r, u128::MAX as int) as u128,
            ),
            (StorageDeposit::Charge(l), StorageDeposit::Refund(r)) => if l >= r {
                StorageDeposit::Charge((l - r) as u128)
            } else {
                StorageDeposit::Refund((r - l) as u128)
            },
            (StorageDeposit::Refund(l), StorageDeposit::Charge(r)) => if l > r {
                StorageDeposit::Refund((l - r) as u128)
            } else {
                StorageDeposit::Charge((r - l) as u128)
            },
        }
    }

    /// What is left of `limit` once this deposit is paid out of it.
    pub open spec fn spec_available(self, limit: Balance) -> Balance {
        match self {
            StorageDeposit::Charge(a) => floor_sub(limit as int, a as int) as u128,
            StorageDeposit::Refund(a) => capped(limit + a, u128::MAX as int) as u128,
        }
    }

    pub open spec fn spec_charge_or_zero(self) -> Balance {
        match self {
            StorageDeposit::Charge(a) => a,
            StorageDeposit::Refund(_) => 0,
        }
    }

    /// No charge and no refund.
    pub fn zero() -> (d: StorageDeposit)
        ensures
            d == StorageDeposit::Charge(0),
    {
        StorageDeposit::Charge(0)
    }

    /// The charge, or zero for a refund.
    pub fn charge_or_zero(&self) -> (r: Balance)
        ensures
            r == self.spec_charge_or_zero(),
    {
        match self {
            StorageDeposit::Charge(a) => *a,
            StorageDeposit::Refund(_) => 0,
        }
    }

    pub fn is_zero(&self) -> (r: bool)
        ensures
            r == (self.net() == 0),
    {
        match self {
            StorageDeposit::Charge(a) => *a == 0,
            StorageDeposit::Refund(a) => *a == 0,
        }
    }

    /// The signed sum of two deposits, capped at the largest balance in either direction.
    pub fn saturating_add(&self, rhs: &StorageDeposit) -> (d: StorageDeposit)
        ensures
            d == self.spec_saturating_add(*rhs),
    {
        match (*self, *rhs) {
            (StorageDeposit::Charge(l), StorageDeposit::Charge(r)) => StorageDeposit::Charge(
                l.saturating_add(r),
            ),
            (StorageDeposit::Refund(l), StorageDeposit::Refund(r)) => StorageDeposit::Refund(
                l.saturating_add(r),
            ),
            (StorageDeposit::Charge(l), StorageDeposit::Refund(r)) => if l >= r {
                StorageDeposit::Charge(l - r)
            } else {
                StorageDeposit::Refund(r - l)
            },
            (StorageDeposit::Refund(l), StorageDeposit::Charge(r)) => if l > r {
                StorageDeposit::Refund(l - r)
            } else {
                StorageDeposit::Charge(r - l)
            },
        }
    }

    /// What is left of `limit` once this deposit is paid out of it.
    pub fn available(&self, limit: Balance) -> (r: Balance)
        ensures
            r == self.spec_available(limit),
    {
        match self {
            StorageDeposit::Charge(a) => limit.saturating_sub(*a),
            StorageDeposit::Refund(a) => limit.saturating_add(*a),
        }
    }
}

/// A change in the storage that a contract occupies.
#[derive(Clone, Copy, Debug, PartialEq, Eq, Structural)]
pub struct Diff {
    pub bytes_added: u32,
    pub bytes_removed: u32,
    pub items_added: u32,
    pub items_removed: u32,
}

impl Diff {
    /// The deposit for `added` units that were created and `removed` units that were freed, at
    /// `price` per unit.
    pub open spec fn side(added: u32, removed: u32, price: Balance) -> StorageDeposit {
        if added > removed {
            StorageDeposit::Charge(capped(price * (added - removed), u128::MAX as int) as u128)
        } else {
            StorageDeposit::Refund(capped(price * (removed - added), u128::MAX as int) as u128)
        }
    }

    /// The deposit that this change costs: bytes at `per_byte`, items at `per_item`.
    pub open spec fn spec_deposit(self, per_byte: Balance, per_item: Balance) -> StorageDeposit {
        Self::side(self.bytes_added, self.bytes_removed, per_byte).spec_saturating_add(
            Self::side(self.items_added, self.items_removed, per_item),
        )
    }

    fn side_exec(added: u32, removed: u32, price: Balance) -> (d: StorageDeposit)
        ensures
            d == Self::side(added, removed, price),
    {
        if added > removed {
            StorageDeposit::Charge(saturating_mul_u128(price, (added - removed) as u128))
        } else {
            StorageDeposit::Refund(saturating_mul_u128(price, (removed - added) as u128))
        }
    }

    /// A change that changes nothing.
    pub fn none() -> (d: Diff)
        ensures
            d == (Diff { bytes_added: 0, bytes_removed: 0, items_added: 0, items_removed: 0 }),
    {
        Diff { bytes_added: 0, bytes_removed: 0, items_added: 0, items_removed: 0 }
    }

    /// The deposit that this change costs: bytes at `per_byte`, items at `per_item`.
    pub fn deposit(&self, per_byte: Balance, per_item: Balance) -> (d: StorageDeposit)
        ensures
            d == self.spec_deposit(per_byte, per_item),
    {
        let bytes = Self::side_exec(self.bytes_added, self.bytes_removed, per_byte);
        let items = Self::side_exec(self.items_added, self.items_removed, per_item);
        bytes.saturating_add(&items)
    }
}

/// Meter of one frame: the limit it may charge, and the deposit accrued so far.
#[derive(Clone, Copy, Debug)]
pub struct Meter {
    limit: Balance,
    total_deposit: StorageDeposit,
}

impl Meter {
    pub closed spec fn limit(self) -> Balance {
        self.limit
    }

    pub closed spec fn total(self) -> StorageDeposit {
        self.total_deposit
    }

    /// The most that a root meter may charge an origin with `free` balance that must keep
    /// `min_leftover` for the call itself and `existential_deposit` to stay alive.
    pub open spec fn max_limit(
        free: Balance,
        min_leftover: Balance,
        existential_deposit: Balance,
    ) -> Balance {
        floor_sub(
            floor_sub(free as int, min_leftover as int),
            existential_deposit as int,
        ) as u128
    }

    /// The meter of a root frame. Without a `limit` all that the origin can spare is the limit.
    /// Fails with `StorageDepositNotEnoughFunds` when `limit` is more than the origin can spare.
    pub fn new(
        free: Balance,
        limit: Option<Balance>,
        min_leftover: Balance,
        existential_deposit: Balance,
    ) -> (r: Result<Meter, Error>)
        ensures
            match r {
                Ok(m) => {
                    &&& m.total() == StorageDeposit::Charge(0)
                    &&& m.limit() <= Self::max_limit(free, min_leftover, existential_deposit)
                    &&& m.limit() == match limit {
                        Some(l) => l,
                        None => Self::max_limit(free, min_leftover, existential_deposit),
                    }
                },
                Err(e) => {
                    &&& e == Error::StorageDepositNotEnoughFunds
                    &&& limit matches Some(l) && l > Self::max_limit(
                        free,
                        min_leftover,
                        existential_deposit,
                    )
                },
            },
    {
        let max = free.saturating_sub(min_leftover).saturating_sub(existential_deposit);
        let limit = match limit {
            Some(l) => l,
            None => max,
        };
        if limit > max {
            Err(Error::StorageDepositNotEnoughFunds)
        } else {
            Ok(Meter { limit, total_deposit: StorageDeposit::Charge(0) })
        }
    }

    /// A meter that may charge nothing and has accrued nothing.
    pub fn empty() -> (m: Meter)
        ensures
            m.limit() == 0,
            m.total() == StorageDeposit::Charge(0),
    {
        Meter { limit: 0, total_deposit: StorageDeposit::Charge(0) }
    }

    /// The meter of a sub-call: bounded by `limit` and by what this meter has left.
    pub fn nested(&self, limit: Option<Balance>) -> (child: Meter)
        ensures
            child.total() == StorageDeposit::Charge(0),
            child.limit() == match limit {
                Some(l) => capped(l as int, self.total().spec_available(self.limit()) as int),
                None => self.total().spec_available(self.limit()) as int,
            },
            child.limit() <= self.total().spec_available(self.limit()),
    {
        let available = self.total_deposit.available(self.limit);
        let limit = match limit {
            Some(l) => if l <= available {
                l
            } else {
                available
            },
            None => available,
        };
        Meter { limit, total_deposit: StorageDeposit::Charge(0) }
    }

    /// Adds a deposit to what has accrued.
    pub fn charge(&mut self, amount: StorageDeposit)
        ensures
            final(self).limit() == old(self).limit(),
            final(self).total() == old(self).total().spec_saturating_add(amount),
    {
        self.total_deposit = self.total_deposit.saturating_add(&amount);
    }

    /// Merges what a successful sub-call accrued into this meter.
    pub fn absorb(&mut self, nested: Meter)
        ensures
            final(self).limit() == old(self).limit(),
            final(self).total() == old(self).total().spec_saturating_add(nested.total()),
    {
        self.total_deposit = self.total_deposit.saturating_add(&nested.total_deposit);
    }

    /// Fails with `StorageDepositLimitExhausted` when more was charged than the limit allows.
    pub fn enforce_limit(&self) -> (r: Result<(), Error>)
        ensures
            r.is_ok() <==> self.total().spec_charge_or_zero() <= self.limit(),
            r.is_err() ==> r == Err::<(), Error>(Error::StorageDepositLimitExhausted),
    {
        if self.total_deposit.charge_or_zero() > self.limit {
            Err(Error::StorageDepositLimitExhausted)
        } else {
            Ok(())
        }
    }

    /// What has accrued.
    pub fn total_deposit(&self) -> (d: StorageDeposit)
        ensures
            d == self.total(),
    {
        self.total_deposit
    }

    /// The limit of this meter.
    pub fn deposit_limit(&self) -> (l: Balance)
        ensures
            l == self.limit(),
    {
        self.limit
    }
}

} // verus!
