//! Host functions by which the running contract ends itself or replaces its code.

use vstd::prelude::*;
use crate::contract::{
    code_updated, set_code_refusal, set_contract_code, storage_refund, terminate_contract,
    terminate_refusal, terminated,
};
use crate::code_cache::{reinstrument_weight, reinstrumented};
use crate::error::Error;
use crate::exec::{Frame, Stack};
use crate::primitives::{AccountId, CodeHash, ExportedFunction};
use crate::table::bytes_eq;

verus! {

/// Whether a frame below the top acts on the account of the top frame.
pub open spec fn is_recursive(frames: Seq<Frame>) -> bool {
    exists|i: int| 0 <= i < frames.len() - 1 && (#[trigger] frames[i]).account_id@
        == frames.last().account_id@
}

impl Stack {
    fn top_is_recursive(&self) -> (r: bool)
        requires
            self.depth() > 0,
        ensures
            r == is_recursive(self.frames()),
    {
        let n = self.frames.len() - 1;
        let mut i: usize = 0;
        while i < n
            invariant
                n == self.frames.len() - 1,
                i <= n,
                forall|j: int|
                    0 <= j < i ==> (#[trigger] self.frames@[j]).account_id@
                        != self.frames@.last().account_id@,
            decreases n - i,
        {
            if bytes_eq(self.frames[i].account_id.as_slice(), self.frames[n].account_id.as_slice(
                )) {
                return true;
            }
            i += 1;
        }
        false
    }

    /// Why the running contract cannot end, once the fee is paid, if it cannot: it runs its
    /// constructor; or a frame below acts on the same account; or one of the reasons of
    /// `terminate_refusal`.
    pub open spec fn end_refusal(self, beneficiary: Seq<u8>) -> Option<Error> {
        if self.top().entry_point == ExportedFunction::Constructor {
            Some(Error::TerminatedInConstructor)
        } else if is_recursive(self.frames()) {
            Some(Error::TerminatedWhileReentrant)
        } else {
            terminate_refusal(self.ledger(), self.config(), self.top().account_id@, beneficiary)
        }
    }

    /// Ends the running contract in favour of `beneficiary`. The deposit for its storage is
    /// refunded to the deposit meter of the frame.
    ///
    /// Fails, the ledger unchanged: with `OutOfGas`, nothing charged, where the frame cannot
    /// pay the fee; else, the fee charged, for the reasons of `end_refusal`.
    pub fn terminate(&mut self, beneficiary: &AccountId) -> (r: Result<(), Error>)
        requires
            old(self).wf(),
            old(self).depth() > 0,
        ensures
            final(self).wf(),
            final(self).same_below(*old(self)),
            final(self).debug_buffer() == old(self).debug_buffer(),
            match r {
                Ok(()) => {
                    let fee = old(self).config().schedule.host_fn_weights.terminate;
                    &&& fee.all_lte(old(self).top().nested_gas.left())
                    &&& old(self).end_refusal(beneficiary@) is None
                    &&& final(self).ledger() == terminated(
                        old(self).ledger(),
                        old(self).top().account_id,
                        *beneficiary,
                    )
                    &&& final(self).top().same_identity(old(self).top())
                    &&& final(self).top().nested_gas.left()
                        == old(self).top().nested_gas.left().spec_saturating_sub(fee)
                    &&& final(self).top().nested_storage.total()
                        == old(self).top().nested_storage.total().spec_saturating_add(
                        storage_refund(
                            old(self).ledger().contracts[old(self).top().account_id@].info,
                        ),
                    )
                },
                Err(e) => if !old(self).config().schedule.host_fn_weights.terminate.all_lte(
                    old(self).top().nested_gas.left(),
                ) {
                    e == Error::OutOfGas && final(self).same(*old(self))
                } else {
                    &&& old(self).end_refusal(beneficiary@) == Some(e)
                    &&& final(self).ledger() == old(self).ledger()
                    &&& final(self).charged(
                        *old(self),
                        old(self).config().schedule.host_fn_weights.terminate,
                    )
                },
            },
    {
        let fee = self.config.schedule.host_fn_weights.terminate;
        let ghost entry = *self;
        match self.charge(fee) {
            Ok(()) => {},
            Err(e) => {
                return Err(e);
            },
        }
        proof {
            let a = self.frames();
            let b = entry.frames();
            assert forall|i: int| 0 <= i < a.len() - 1 implies #[trigger] a[i] == b[i] by {
                assert(a.drop_last()[i] == b.drop_last()[i]);
            }
            assert(a.last().account_id == b.last().account_id);
            if is_recursive(a) {
                let i = choose|i: int|
                    0 <= i < a.len() - 1 && (#[trigger] a[i]).account_id@ == a.last().account_id@;
                assert(b[i].account_id@ == b.last().account_id@);
            }
            if is_recursive(b) {
                let i = choose|i: int|
                    0 <= i < b.len() - 1 && (#[trigger] b[i]).account_id@ == b.last().account_id@;
                assert(a[i].account_id@ == a.last().account_id@);
            }
        }
        match self.frames[self.frames.len() - 1].entry_point {
            ExportedFunction::Constructor => {
                return Err(Error::TerminatedInConstructor);
            },
            ExportedFunction::Call => {},
        }
        if self.top_is_recursive() {
            return Err(Error::TerminatedWhileReentrant);
        }
        let ghost before = *self;
        let mut top = self.frames.pop().unwrap();
        let who = top.account_id;
        let r = terminate_contract(&mut self.state, &self.config, &who, beneficiary);
        let r = match r {
            Ok(refund) => {
                top.nested_storage.charge(refund);
                Ok(())
            },
            Err(e) => Err(e),
        };
        self.frames.push(top);
        proof {
            assert(self.frames@.drop_last() =~= before.frames@.drop_last());
            assert forall|i: int| 0 <= i < self.depth() implies (
            #[trigger] self.frames()[i]).nested_gas.wf() && self.frames()[i].checkpoint
                == before.frames()[i].checkpoint by {
                if i < self.depth() - 1 {
                    assert(self.frames()[i] == before.frames()[i]);
                }
            }
            if r.is_err() {
                assert(self.frames@ =~= before.frames@);
            }
        }
        r
    }

    /// Gives the running contract the code under `hash` for its later calls.
    ///
    /// Fails, the ledger unchanged: with `OutOfGas`, nothing charged, where the frame cannot
    /// pay the fee; else, the fee charged, with `CodeNotFound` where no code is stored under
    /// `hash`, and with `ContractNotFound` where the contract has ended.
    pub fn set_code_hash(&mut self, hash: &CodeHash) -> (r: Result<(), Error>)
        requires
            old(self).wf(),
            old(self).depth() > 0,
        ensures
            final(self).wf(),
            match r {
                Ok(()) => {
                    let fee = old(self).config().schedule.host_fn_weights.set_code_hash;
                    &&& fee.all_lte(old(self).top().nested_gas.left())
                    &&& set_code_refusal(old(self).ledger(), old(self).top().account_id@, hash@)
                        is None
                    &&& final(self).ledger() == code_updated(
                        old(self).ledger(),
                        old(self).top().account_id,
                        *hash,
                    )
                    &&& final(self).charged(*old(self), fee)
                },
                Err(e) => if !old(self).config().schedule.host_fn_weights.set_code_hash.all_lte(
                    old(self).top().nested_gas.left(),
                ) {
                    e == Error::OutOfGas && final(self).same(*old(self))
                } else {
                    &&& set_code_refusal(old(self).ledger(), old(self).top().account_id@, hash@)
                        == Some(e)
                    &&& final(self).ledger() == old(self).ledger()
                    &&& final(self).charged(
                        *old(self),
                        old(self).config().schedule.host_fn_weights.set_code_hash,
                    )
                },
            },
    {
        let fee = self.config.schedule.host_fn_weights.set_code_hash;
        match self.charge(fee) {
            Ok(()) => {},
            Err(e) => {
                return Err(e);
            },
        }
        let who = self.frames[self.frames.len() - 1].account_id;
        set_contract_code(&mut self.state, &who, hash)
    }

    /// Whether the running frame was opened read only: by a call that carried the flag, or
    /// under a frame that was.
    pub fn is_read_only(&self) -> (r: bool)
        requires
            self.depth() > 0,
        ensures
            r == self.top().read_only,
    {
        self.frames[self.frames.len() - 1].read_only
    }

    /// Gives the code of the running frame a new instrumentation, made under the current
    /// instruction weights, at the cost of the running frame. To be used where the frame was
    /// opened over stale code, before the code runs. See `reinstrument` of the code cache.
    ///
    /// Fails, changing and charging nothing: with `CodeNotFound` where the code of the frame
    /// is no longer stored, with `CodeTooLarge` where the new form exceeds the configured
    /// length, and with `OutOfGas` where the frame cannot pay for the instrumentation.
    pub fn reinstrument(&mut self, instrumented: Vec<u8>) -> (r: Result<(), Error>)
        requires
            old(self).wf(),
            old(self).depth() > 0,
        ensures
            final(self).wf(),
            final(self).same_below(*old(self)),
            final(self).debug_buffer() == old(self).debug_buffer(),
            final(self).top().same_identity(old(self).top()),
            final(self).top().input == old(self).top().input,
            final(self).top().allows_reentry == old(self).top().allows_reentry,
            final(self).top().nested_storage == old(self).top().nested_storage,
            match r {
                Ok(()) => {
                    let hash = old(self).top().code_hash@;
                    &&& old(self).ledger().codes.contains_key(hash)
                    &&& instrumented@.len() <= old(self).config().max_code_len
                    &&& reinstrument_weight(
                        old(self).config(),
                        old(self).ledger().codes[hash].pristine.len(),
                    ).all_lte(old(self).top().nested_gas.left())
                    &&& final(self).top().nested_gas.left()
                        == old(self).top().nested_gas.left().spec_saturating_sub(
                        reinstrument_weight(
                            old(self).config(),
                            old(self).ledger().codes[hash].pristine.len(),
                        ),
                    )
                    &&& final(self).ledger() == reinstrumented(
                        old(self).ledger(),
                        old(self).config(),
                        hash,
                        instrumented@,
                    )
                },
                Err(e) => {
                    let hash = old(self).top().code_hash@;
                    &&& final(self).ledger() == old(self).ledger()
                    &&& final(self).top().nested_gas == old(self).top().nested_gas
                    &&& if !old(self).ledger().codes.contains_key(hash) {
                        e == Error::CodeNotFound
                    } else if instrumented@.len() > old(self).config().max_code_len {
                        e == Error::CodeTooLarge
                    } else {
                        e == Error::OutOfGas && !reinstrument_weight(
                            old(self).config(),
                            old(self).ledger().codes[hash].pristine.len(),
                        ).all_lte(old(self).top().nested_gas.left())
                    }
                },
            },
    {
        let ghost before = *self;
        let mut top = self.frames.pop().unwrap();
        let hash = top.code_hash;
        let r = crate::code_cache::reinstrument(
            &mut self.state,
            &self.config,
            &hash,
            instrumented,
            &mut top.nested_gas,
        );
        self.frames.push(top);
        proof {
            assert(self.frames@.drop_last() =~= before.frames@.drop_last());
            assert forall|i: int| 0 <= i < self.depth() implies (
            #[trigger] self.frames()[i]).nested_gas.wf() && self.frames()[i].checkpoint
                == before.frames()[i].checkpoint by {
                if i < self.depth() - 1 {
                    assert(self.frames()[i] == before.frames()[i]);
                }
            }
        }
        r
    }
}

} // verus!
