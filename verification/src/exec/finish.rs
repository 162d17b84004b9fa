//! Closing a frame: commit or rollback, and what goes back to the caller.

use vstd::prelude::*;
use crate::address::{blake2_256_digest, hash_code};
use crate::error::{Error, ErrorOrigin, ExecError};
use crate::event::{record_with_topics, Event, EventRecord, EventRecordView, EventView};
use crate::exec::{Frame, Outcome, Stack};
use crate::primitives::{ExecReturnValue, ExportedFunction};
use crate::state::StateView;
use crate::weight::Weight;

verus! {

/// Whether the changes of a frame stay: its code returned without the revert flag, and its
/// storage deposit is within its limit.
pub open spec fn commits(top: Frame, outcome: Outcome) -> bool {
    &&& outcome matches Outcome::Returned { flags, data }
    &&& flags % 2 == 0
    &&& top.nested_storage.total().spec_charge_or_zero() <= top.nested_storage.limit()
}

/// The error that closing a frame hands to the caller, if it hands one: the trap, or the
/// exhausted deposit limit of a frame that would else have committed.
pub open spec fn failure(top: Frame, outcome: Outcome) -> Option<Error> {
    match outcome {
        Outcome::Trapped(e) => Some(e),
        Outcome::Returned { flags, data } => if flags % 2 == 0
            && top.nested_storage.total().spec_charge_or_zero() > top.nested_storage.limit() {
            Some(Error::StorageDepositLimitExhausted)
        } else {
            None
        },
    }
}

/// The event that a frame deposits when it commits, under two topics: for a call and for an
/// instantiation the digests of caller and contract, for a delegate call the digest of the
/// contract and the code hash.
pub open spec fn frame_event(top: Frame) -> EventRecordView {
    if top.delegated {
        EventRecordView {
            topics: seq![blake2_256_digest(top.account_id@), top.code_hash@],
            event: EventView::DelegateCalled { contract: top.account_id, code_hash: top.code_hash },
        }
    } else {
        EventRecordView {
            topics: seq![blake2_256_digest(top.caller@), blake2_256_digest(top.account_id@)],
            event: match top.entry_point {
                ExportedFunction::Constructor => EventView::Instantiated {
                    deployer: top.caller,
                    contract: top.account_id,
                },
                ExportedFunction::Call => EventView::Called {
                    caller: top.caller,
                    contract: top.account_id,
                },
            },
        }
    }
}

/// Builds the event that a frame deposits when it commits.
pub(crate) fn frame_record(top: &Frame) -> (record: EventRecord)
    ensures
        record@ == frame_event(*top),
{
    if top.delegated {
        record_with_topics(
            Event::DelegateCalled { contract: top.account_id, code_hash: top.code_hash },
            hash_code(top.account_id.as_slice()),
            top.code_hash,
        )
    } else {
        let event = match top.entry_point {
            ExportedFunction::Constructor => Event::Instantiated {
                deployer: top.caller,
                contract: top.account_id,
            },
            ExportedFunction::Call => Event::Called { caller: top.caller,
                contract: top.account_id },
        };
        record_with_topics(
            event,
            hash_code(top.caller.as_slice()),
            hash_code(top.account_id.as_slice()),
        )
    }
}

/// The ledger after the frame `top` was closed with `outcome`.
pub open spec fn closed_ledger(top: Frame, outcome: Outcome, stack: Stack) -> StateView {
    if commits(top, outcome) {
        StateView { events: stack.ledger().events.push(frame_event(top)), ..stack.ledger() }
    } else {
        stack.state().reverts_to(top.checkpoint as int)
    }
}

/// The gas that a closed frame hands back: what it has left, or nothing after a trap.
pub open spec fn gas_back(top: Frame, outcome: Outcome) -> Weight {
    if outcome is Trapped {
        Weight { ref_time: 0, proof_size: 0 }
    } else {
        top.nested_gas.left()
    }
}

impl Stack {
    /// Closes the running frame.
    ///
    /// A frame that returned without the revert flag, within its deposit limit, commits: its
    /// changes stay, its event is deposited and its storage deposit goes to the meter of the
    /// caller. Any other frame is rolled back: the ledger is again what it was when the frame
    /// was opened. Either way the caller gets back the gas that the frame has left, nothing
    /// after a trap, and can be re-entered again.
    ///
    /// Returns what the contract returned, or the failure with the origin `Callee`.
    pub fn finish(&mut self, outcome: Outcome) -> (r: Result<ExecReturnValue, ExecError>)
        requires
            old(self).wf(),
            old(self).depth() > 0,
        ensures
            final(self).wf(),
            final(self).config() == old(self).config(),
            final(self).origin() == old(self).origin(),
            final(self).determinism() == old(self).determinism(),
            final(self).debug_buffer() == old(self).debug_buffer(),
            final(self).depth() == old(self).depth() - 1,
            final(self).ledger() == closed_ledger(old(self).top(), outcome, *old(self)),
            forall|m: int|
                0 <= m <= old(self).top().checkpoint
                    ==> #[trigger] final(self).state().reverts_to(m)
                    == old(self).state().reverts_to(m),
            match failure(old(self).top(), outcome) {
                Some(e) => r == Err::<ExecReturnValue, ExecError>(
                    ExecError { error: e, origin: ErrorOrigin::Callee },
                ),
                None => r matches Ok(v) && outcome matches Outcome::Returned { flags, data }
                    && v.flags == flags && v.data == data,
            },
            old(self).depth() >= 2 ==> {
                let parent = final(self).top();
                let before = old(self).frames()[old(self).depth() - 2];
                &&& final(self).frames().drop_last() == old(self).frames().drop_last().drop_last()
                &&& final(self).gas() == old(self).gas()
                &&& final(self).deposit() == old(self).deposit()
                &&& parent.same_identity(before)
                &&& parent.input == before.input
                &&& parent.allows_reentry
                &&& parent.nested_gas.left() == before.nested_gas.left().spec_saturating_add(
                    gas_back(old(self).top(), outcome),
                ).spec_min(before.nested_gas.limit())
                &&& parent.nested_gas.lowest() == before.nested_gas.lowest_after(
                    old(self).top().nested_gas,
                    outcome is Trapped,
                )
                &&& parent.nested_storage.total() == if commits(old(self).top(), outcome) {
                    before.nested_storage.total().spec_saturating_add(
                        old(self).top().nested_storage.total(),
                    )
                } else {
                    before.nested_storage.total()
                }
            },
            old(self).depth() == 1 ==> {
                &&& final(self).gas().limit() == old(self).gas().limit()
                &&& final(self).gas().lowest() == old(self).gas().lowest_after(
                    old(self).top().nested_gas,
                    outcome is Trapped,
                )
                &&& final(self).gas().left() == old(self).gas().left().spec_saturating_add(
                    gas_back(old(self).top(), outcome),
                ).spec_min(old(self).gas().limit())
                &&& final(self).deposit().limit() == old(self).deposit().limit()
                &&& final(self).deposit().total() == if commits(old(self).top(), outcome) {
                    old(self).deposit().total().spec_saturating_add(
                        old(self).top().nested_storage.total(),
                    )
                } else {
                    old(self).deposit().total()
                }
            },
    {
        let ghost before = *self;
        let top = self.frames.pop().unwrap();
        let ghost below = self.frames@;
        assert(below =~= before.frames().drop_last());
        let trapped = match &outcome {
            Outcome::Trapped(_) => true,
            Outcome::Returned { .. } => false,
        };
        let within_limit = top.nested_storage.enforce_limit().is_ok();
        let (result, commit) = match outcome {
            Outcome::Trapped(e) => (Err(ExecError { error: e, origin: ErrorOrigin::Callee }),
                false),
            Outcome::Returned { flags, data } => {
                if flags % 2 == 1 {
                    (Ok(ExecReturnValue { flags, data }), false)
                } else if !within_limit {
                    (
                        Err(
                            ExecError {
                                error: Error::StorageDepositLimitExhausted,
                                origin: ErrorOrigin::Callee,
                            },
                        ),
                        false,
                    )
                } else {
                    (Ok(ExecReturnValue { flags, data }), true)
                }
            },
        };
        if commit {
            let record = frame_record(&top);
            self.state.deposit_event(record);
        } else {
            self.state.revert_to(top.checkpoint);
        }
        if self.frames.len() > 0 {
            let mut parent = self.frames.pop().unwrap();
            parent.nested_gas.absorb_nested(top.nested_gas, trapped);
            if commit {
                parent.nested_storage.absorb(top.nested_storage);
            }
            parent.allows_reentry = true;
            self.frames.push(parent);
            proof {
                assert(self.frames@.drop_last() =~= below.drop_last());
                assert forall|i: int| 0 <= i < self.depth() implies (
                #[trigger] self.frames()[i]).nested_gas.wf() && self.frames()[i].checkpoint
                    == before.frames()[i].checkpoint by {
                    if i < self.depth() - 1 {
                        assert(self.frames()[i] == below[i]);
                    }
                }
            }
        } else {
            self.gas_meter.absorb_nested(top.nested_gas, trapped);
            if commit {
                self.storage_meter.absorb(top.nested_storage);
            }
        }
        result
    }
}

} // verus!
