//! Host functions on the storage of the running contract.

use vstd::prelude::*;
use crate::error::Error;
use crate::exec::Stack;
use crate::state::opt_view;
use crate::storage::{
    counted, opt_len, read, size, store_refusal, write_diff, written, StorageKey, WriteOutcome,
};
use crate::weight::Weight;

verus! {

impl Stack {
    /// Whether a key is as long as the configuration allows: fixed keys always, variable
    /// keys up to the configured length.
    pub open spec fn key_fits(self, key: StorageKey) -> bool {
        match key {
            StorageKey::Fix(_) => true,
            StorageKey::Var(k) => k@.len() <= self.config().max_storage_key_len,
        }
    }

    fn key_fits_exec(&self, key: &StorageKey) -> (r: bool)
        ensures
            r == self.key_fits(*key),
    {
        match key {
            StorageKey::Fix(_) => true,
            StorageKey::Var(k) => k.len() <= self.config.max_storage_key_len as usize,
        }
    }

    /// The value that the running contract keeps under `key`.
    pub open spec fn own_value(self, key: StorageKey) -> Option<Seq<u8>> {
        self.ledger().storage_value(self.top().account_id@, key.trie_key())
    }

    /// The stack after the running contract wrote `value` under `key`: the ledger holds the
    /// value and accounts for it, and the deposit meter of the frame has taken the price.
    pub open spec fn wrote(self, before: Stack, key: StorageKey, value: Option<Seq<u8>>) -> bool {
        &&& self.same_below(before)
        &&& self.debug_buffer() == before.debug_buffer()
        &&& self.top().same_identity(before.top())
        &&& self.top().input == before.top().input
        &&& self.top().allows_reentry == before.top().allows_reentry
        &&& self.top().nested_gas == before.top().nested_gas
        &&& self.ledger() == written(
            before.ledger(),
            before.config(),
            before.top().account_id@,
            key.trie_key(),
            value,
        )
        &&& self.top().nested_storage.total()
            == before.top().nested_storage.total().spec_saturating_add(
            write_diff(key.spec_len(), opt_len(before.own_value(key)), opt_len(value)).spec_deposit(
                before.config().deposit_per_byte,
                before.config().deposit_per_item,
            ),
        )
    }

    fn write_top(&mut self, key: &StorageKey, value: Option<Vec<u8>>, take: bool) -> (r: Result<
        WriteOutcome,
        Error,
    >)
        requires
            old(self).wf(),
            old(self).depth() > 0,
        ensures
            final(self).wf(),
            r.is_ok() <==> store_refusal(
                old(self).ledger(),
                old(self).top().account_id@,
                key.trie_key(),
                opt_len(opt_view(value)),
            ) is None,
            r matches Err(e) ==> {
                &&& store_refusal(
                    old(self).ledger(),
                    old(self).top().account_id@,
                    key.trie_key(),
                    opt_len(opt_view(value)),
                ) == Some(e)
                &&& final(self).same_below(*old(self))
                &&& final(self).ledger() == old(self).ledger()
                &&& final(self).top() == old(self).top()
                &&& final(self).debug_buffer() == old(self).debug_buffer()
            },
            r matches Ok(outcome) ==> {
                &&& final(self).wrote(*old(self), *key, opt_view(value))
                &&& match old(self).own_value(*key) {
                    None => outcome is New,
                    Some(v) => if take {
                        (outcome matches WriteOutcome::Taken(t) && t@ == v)
                    } else {
                        (outcome matches WriteOutcome::Overwritten(n) && n == counted(v.len()))
                    },
                }
            },
    {
        let ghost before = *self;
        let mut top = self.frames.pop().unwrap();
        let who = top.account_id;
        let r = crate::storage::write(
            &mut self.state,
            &self.config,
            &who,
            key,
            value,
            &mut top.nested_storage,
            take,
        );
        self.frames.push(top);
        proof {
            assert(self.frames@.drop_last() =~= before.frames@.drop_last());
            assert forall|i: int| 0 <= i < self.depth() implies (
            #[trigger] self.frames()[i]).nested_gas.wf() && self.frames()[i].checkpoint
                == before.frames()[i].checkpoint by {
                if i < self.depth() - 1 {
                    assert(self.frames()[i] == before.frames()[i]);
                }
            }
        }
        r
    }

    /// The fee of writing a value of `len` bytes.
    pub open spec fn set_storage_fee(self, len: nat) -> Weight {
        let w = self.config().schedule.host_fn_weights;
        w.set_storage.spec_saturating_add(w.set_storage_per_byte.spec_saturating_mul(len as u64))
    }

    /// Why a write of `len` bytes under `key` fails once its fee is paid, if it does: the key
    /// is too long, the value is longer than a payload may be, or the storage refuses it.
    pub open spec fn write_refusal(self, key: StorageKey, len: nat) -> Option<Error> {
        if !self.key_fits(key) {
            Some(Error::DecodingFailed)
        } else if len > self.config().schedule.limits.payload_len {
            Some(Error::ValueTooLarge)
        } else {
            store_refusal(self.ledger(), self.top().account_id@, key.trie_key(), Some(len))
        }
    }

    /// Writes `value` under `key` into the storage of the running contract, and tells whether
    /// a value was there and how long it was.
    ///
    /// Fails, the ledger unchanged: with `OutOfGas`, nothing charged, where the frame cannot
    /// pay the fee; else, the fee charged, with `DecodingFailed` for a key that is too long,
    /// with `ValueTooLarge` for a value that is too long or that the counters of the
    /// contract cannot count, and with `ContractNotFound` where the contract has ended.
    pub fn set_storage(&mut self, key: &StorageKey, value: Vec<u8>) -> (r: Result<
        WriteOutcome,
        Error,
    >)
        requires
            old(self).wf(),
            old(self).depth() > 0,
        ensures
            final(self).wf(),
            match r {
                Ok(outcome) => {
                    &&& old(self).set_storage_fee(value@.len()).all_lte(
                        old(self).top().nested_gas.left(),
                    )
                    &&& old(self).write_refusal(*key, value@.len()) is None
                    &&& final(self).top().nested_gas.left()
                        == old(self).top().nested_gas.left().spec_saturating_sub(
                        old(self).set_storage_fee(value@.len()),
                    )
                    &&& final(self).ledger() == written(
                        old(self).ledger(),
                        old(self).config(),
                        old(self).top().account_id@,
                        key.trie_key(),
                        Some(value@),
                    )
                    &&& final(self).top().nested_storage.total()
                        == old(self).top().nested_storage.total().spec_saturating_add(
                        write_diff(
                            key.spec_len(),
                            opt_len(old(self).own_value(*key)),
                            Some(value@.len()),
                        ).spec_deposit(
                            old(self).config().deposit_per_byte,
                            old(self).config().deposit_per_item,
                        ),
                    )
                    &&& final(self).same_below(*old(self))
                    &&& final(self).top().same_identity(old(self).top())
                    &&& match old(self).own_value(*key) {
                        None => outcome is New,
                        Some(v) => (outcome matches WriteOutcome::Overwritten(n) && n == counted(
                            v.len(),
                        )),
                    }
                },
                Err(e) => if !old(self).set_storage_fee(value@.len()).all_lte(
                    old(self).top().nested_gas.left(),
                ) {
                    e == Error::OutOfGas && final(self).same(*old(self))
                } else {
                    &&& old(self).write_refusal(*key, value@.len()) == Some(e)
                    &&& final(self).ledger() == old(self).ledger()
                    &&& final(self).charged(*old(self), old(self).set_storage_fee(value@.len()))
                },
            },
    {
        let w = self.config.schedule.host_fn_weights;
        let fee = w.set_storage.saturating_add(
            &w.set_storage_per_byte.saturating_mul(value.len() as u64),
        );
        match self.charge(fee) {
            Ok(()) => {},
            Err(e) => {
                return Err(e);
            },
        }
        if !self.key_fits_exec(key) {
            return Err(Error::DecodingFailed);
        }
        if value.len() > self.config.schedule.limits.payload_len as usize {
            return Err(Error::ValueTooLarge);
        }
        self.write_top(key, Some(value), false)
    }

    /// Why an access to `key` fails once its fee is paid, if it does.
    pub open spec fn access_refusal(self, key: StorageKey) -> Option<Error> {
        if !self.key_fits(key) {
            Some(Error::DecodingFailed)
        } else if !self.ledger().contracts.contains_key(self.top().account_id@) {
            Some(Error::ContractNotFound)
        } else {
            None
        }
    }

    /// Clears the value under `key` in the storage of the running contract, and tells
    /// whether a value was there and how long it was.
    ///
    /// Fails as `set_storage` does, but for the length of the value.
    pub fn clear_storage(&mut self, key: &StorageKey) -> (r: Result<WriteOutcome, Error>)
        requires
            old(self).wf(),
            old(self).depth() > 0,
        ensures
            final(self).wf(),
            match r {
                Ok(outcome) => {
                    let fee = old(self).config().schedule.host_fn_weights.clear_storage;
                    &&& fee.all_lte(old(self).top().nested_gas.left())
                    &&& old(self).access_refusal(*key) is None
                    &&& final(self).top().nested_gas.left()
                        == old(self).top().nested_gas.left().spec_saturating_sub(fee)
                    &&& final(self).ledger() == written(
                        old(self).ledger(),
                        old(self).config(),
                        old(self).top().account_id@,
                        key.trie_key(),
                        None,
                    )
                    &&& final(self).top().nested_storage.total()
                        == old(self).top().nested_storage.total().spec_saturating_add(
                        write_diff(key.spec_len(), opt_len(old(self).own_value(*key)),
                            None).spec_deposit(
                            old(self).config().deposit_per_byte,
                            old(self).config().deposit_per_item,
                        ),
                    )
                    &&& final(self).same_below(*old(self))
                    &&& final(self).top().same_identity(old(self).top())
                    &&& match old(self).own_value(*key) {
                        None => outcome is New,
                        Some(v) => (outcome matches WriteOutcome::Overwritten(n) && n == counted(
                            v.len(),
                        )),
                    }
                },
                Err(e) => if !old(self).config().schedule.host_fn_weights.clear_storage.all_lte(
                    old(self).top().nested_gas.left(),
                ) {
                    e == Error::OutOfGas && final(self).same(*old(self))
                } else {
                    &&& old(self).access_refusal(*key) == Some(e)
                    &&& final(self).ledger() == old(self).ledger()
                    &&& final(self).charged(
                        *old(self),
                        old(self).config().schedule.host_fn_weights.clear_storage,
                    )
                },
            },
    {
        let fee = self.config.schedule.host_fn_weights.clear_storage;
        match self.charge(fee) {
            Ok(()) => {},
            Err(e) => {
                return Err(e);
            },
        }
        if !self.key_fits_exec(key) {
            return Err(Error::DecodingFailed);
        }
        self.write_top(key, None, false)
    }

    /// Takes the value under `key` out of the storage of the running contract and hands it
    /// back; `None` where there was none.
    ///
    /// Fails as `clear_storage` does.
    pub fn take_storage(&mut self, key: &StorageKey) -> (r: Result<Option<Vec<u8>>, Error>)
        requires
            old(self).wf(),
            old(self).depth() > 0,
        ensures
            final(self).wf(),
            match r {
                Ok(taken) => {
                    let fee = old(self).config().schedule.host_fn_weights.take_storage;
                    &&& fee.all_lte(old(self).top().nested_gas.left())
                    &&& old(self).access_refusal(*key) is None
                    &&& final(self).top().nested_gas.left()
                        == old(self).top().nested_gas.left().spec_saturating_sub(fee)
                    &&& final(self).ledger() == written(
                        old(self).ledger(),
                        old(self).config(),
                        old(self).top().account_id@,
                        key.trie_key(),
                        None,
                    )
                    &&& final(self).top().nested_storage.total()
                        == old(self).top().nested_storage.total().spec_saturating_add(
                        write_diff(key.spec_len(), opt_len(old(self).own_value(*key)),
                            None).spec_deposit(
                            old(self).config().deposit_per_byte,
                            old(self).config().deposit_per_item,
                        ),
                    )
                    &&& final(self).same_below(*old(self))
                    &&& final(self).top().same_identity(old(self).top())
                    &&& opt_view(taken) == old(self).own_value(*key)
                },
                Err(e) => if !old(self).config().schedule.host_fn_weights.take_storage.all_lte(
                    old(self).top().nested_gas.left(),
                ) {
                    e == Error::OutOfGas && final(self).same(*old(self))
                } else {
                    &&& old(self).access_refusal(*key) == Some(e)
                    &&& final(self).ledger() == old(self).ledger()
                    &&& final(self).charged(
                        *old(self),
                        old(self).config().schedule.host_fn_weights.take_storage,
                    )
                },
            },
    {
        let fee = self.config.schedule.host_fn_weights.take_storage;
        match self.charge(fee) {
            Ok(()) => {},
            Err(e) => {
                return Err(e);
            },
        }
        if !self.key_fits_exec(key) {
            return Err(Error::DecodingFailed);
        }
        match self.write_top(key, None, true) {
            Ok(WriteOutcome::Taken(v)) => Ok(Some(v)),
            Ok(_) => Ok(None),
            Err(e) => Err(e),
        }
    }

    /// The value under `key` in the storage of the running contract.
    ///
    /// Fails with `OutOfGas`, nothing charged, where the frame cannot pay the fee, and with
    /// `DecodingFailed`, the fee charged, for a key that is too long.
    pub fn get_storage(&mut self, key: &StorageKey) -> (r: Result<Option<Vec<u8>>, Error>)
        requires
            old(self).wf(),
            old(self).depth() > 0,
        ensures
            final(self).wf(),
            final(self).state() == old(self).state(),
            match r {
                Ok(v) => {
                    &&& old(self).config().schedule.host_fn_weights.get_storage.all_lte(
                        old(self).top().nested_gas.left(),
                    )
                    &&& old(self).key_fits(*key)
                    &&& opt_view(v) == old(self).own_value(*key)
                    &&& final(self).charged(
                        *old(self),
                        old(self).config().schedule.host_fn_weights.get_storage,
                    )
                },
                Err(e) => if !old(self).config().schedule.host_fn_weights.get_storage.all_lte(
                    old(self).top().nested_gas.left(),
                ) {
                    e == Error::OutOfGas && final(self).same(*old(self))
                } else {
                    &&& e == Error::DecodingFailed
                    &&& !old(self).key_fits(*key)
                    &&& final(self).charged(
                        *old(self),
                        old(self).config().schedule.host_fn_weights.get_storage,
                    )
                },
            },
    {
        let fee = self.config.schedule.host_fn_weights.get_storage;
        match self.charge(fee) {
            Ok(()) => {},
            Err(e) => {
                return Err(e);
            },
        }
        if !self.key_fits_exec(key) {
            return Err(Error::DecodingFailed);
        }
        let who = self.frames[self.frames.len() - 1].account_id;
        Ok(read(&self.state, &who, key))
    }

    /// The length of the value under `key` in the storage of the running contract; `None`
    /// where there is no value.
    ///
    /// Fails as `get_storage` does.
    pub fn contains_storage(&mut self, key: &StorageKey) -> (r: Result<Option<u32>, Error>)
        requires
            old(self).wf(),
            old(self).depth() > 0,
        ensures
            final(self).wf(),
            final(self).state() == old(self).state(),
            match r {
                Ok(v) => {
                    &&& old(self).config().schedule.host_fn_weights.contains_storage.all_lte(
                        old(self).top().nested_gas.left(),
                    )
                    &&& old(self).key_fits(*key)
                    &&& match old(self).own_value(*key) {
                        Some(value) => v == Some(counted(value.len())),
                        None => v.is_none(),
                    }
                    &&& final(self).charged(
                        *old(self),
                        old(self).config().schedule.host_fn_weights.contains_storage,
                    )
                },
                Err(e) => if !old(self).config().schedule.host_fn_weights.contains_storage.all_lte(
                    old(self).top().nested_gas.left(),
                ) {
                    e == Error::OutOfGas && final(self).same(*old(self))
                } else {
                    &&& e == Error::DecodingFailed
                    &&& !old(self).key_fits(*key)
                    &&& final(self).charged(
                        *old(self),
                        old(self).config().schedule.host_fn_weights.contains_storage,
                    )
                },
            },
    {
        let fee = self.config.schedule.host_fn_weights.contains_storage;
        match self.charge(fee) {
            Ok(()) => {},
            Err(e) => {
                return Err(e);
            },
        }
        if !self.key_fits_exec(key) {
            return Err(Error::DecodingFailed);
        }
        let who = self.frames[self.frames.len() - 1].account_id;
        Ok(size(&self.state, &who, key))
    }
}

} // verus!
