//! The code cache: uploaded code under its hash, with owner, deposit and user count.

use vstd::prelude::*;
use crate::address::{blake2_256_digest, hash_code};
use crate::config::Config;
use crate::error::{DispatchError, Error};
use crate::event::{indexed, record_with_topic, Event, EventView};
use crate::gas::GasMeter;
use crate::invariants::{
    conserves, keeps_counts, lemma_reinstrumented_keeps_refcounts, lemma_removed_keeps_refcounts,
    lemma_stored_keeps_refcounts,
};
use crate::ledger::{reserve, reserved, unreserve, unreserved};
use crate::primitives::{to_vec, AccountId, Balance, CodeHash, Determinism};
use crate::invariants::refcounts_exact;
use crate::state::{CodeEntry, CodeEntryView, State, StateView};
use crate::table::bytes_eq;
use crate::weight::{capped, floor_sub};

verus! {

/// A code blob that passed validation and instrumentation and is ready to be stored.
pub struct PrefabWasmModule {
    /// Digest of the pristine bytes.
    pub code_hash: CodeHash,
    /// The bytes as they were uploaded.
    pub pristine: Vec<u8>,
    /// The bytes with metering injected.
    pub instrumented: Vec<u8>,
    /// The account that uploads the code.
    pub owner: AccountId,
    pub determinism: Determinism,
    /// The deposit that storing the module will reserve from the owner: nothing where the
    /// code is stored already.
    pub deposit: Balance,
}

/// What the executor needs to know of code that it is about to run.
#[derive(Clone, Copy, Debug)]
pub struct LoadedCode {
    pub code_hash: CodeHash,
    /// Whether the stored instrumentation was made under older instruction weights, so that
    /// the code has to be instrumented again before it runs.
    pub stale: bool,
    pub determinism: Determinism,
}

/// The entry that `store` creates for a module that is not stored yet.
pub open spec fn new_entry(m: PrefabWasmModule, version: u32) -> CodeEntryView {
    CodeEntryView {
        pristine: m.pristine@,
        instrumented: m.instrumented@,
        instruction_weights_version: version,
        owner: m.owner,
        deposit: m.deposit,
        refcount: 0,
        determinism: m.determinism,
    }
}

impl PrefabWasmModule {
    /// Prepares a module from uploaded bytes and the outcome of validating and instrumenting
    /// them (`None` where the code was rejected).
    ///
    /// Fails with `CodeRejected` for rejected code, and with `CodeTooLarge` where the pristine
    /// or the instrumented bytes exceed the configured length.
    pub fn from_code(
        state: &State,
        config: &Config,
        pristine: Vec<u8>,
        instrumented: Option<Vec<u8>>,
        owner: AccountId,
        determinism: Determinism,
    ) -> (r: Result<PrefabWasmModule, Error>)
        requires
            state.wf(),
        ensures
            match r {
                Ok(m) => {
                    &&& instrumented matches Some(i) && m.instrumented@ == i@
                    &&& m.pristine@ == pristine@
                    &&& pristine@.len() <= config.max_code_len
                    &&& m.instrumented@.len() <= config.max_code_len
                    &&& m.code_hash@ == blake2_256_digest(pristine@)
                    &&& m.owner == owner
                    &&& m.determinism == determinism
                    &&& m.deposit == if state@.codes.contains_key(m.code_hash@) {
                        0
                    } else {
                        config.spec_code_deposit(m.instrumented@.len())
                    }
                },
                Err(e) => match instrumented {
                    None => e == Error::CodeRejected,
                    Some(i) => e == Error::CodeTooLarge && (pristine@.len() > config.max_code_len
                        || i@.len() > config.max_code_len),
                },
            },
    {
        let instrumented = match instrumented {
            Some(i) => i,
            None => {
                return Err(Error::CodeRejected);
            },
        };
        if pristine.len() > config.max_code_len as usize || instrumented.len()
            > config.max_code_len as usize {
            return Err(Error::CodeTooLarge);
        }
        let code_hash = hash_code(pristine.as_slice());
        let deposit = if state.code(&code_hash).is_some() {
            0
        } else {
            config.code_deposit(instrumented.len())
        };
        Ok(PrefabWasmModule { code_hash, pristine, instrumented, owner, determinism, deposit })
    }

    /// Stores the module.
    ///
    /// Where no code is stored under its hash, the deposit is reserved from the owner, the
    /// code is stored without users and `CodeStored` is deposited; this fails with
    /// `StorageDepositNotEnoughFunds`, and changes nothing, where the owner cannot pay.
    /// Where the code is stored already, nothing is reserved; the stored instrumentation is
    /// replaced if it is older than the current instruction weights.
    pub fn store(self, state: &mut State, config: &Config) -> (r: Result<(), Error>)
        requires
            old(state).wf(),
        ensures
            final(state).wf(),
            final(state).extends(*old(state)),
            final(state)@ == stored(old(state)@, self, *config),
            conserves(old(state)@, final(state)@),
            keeps_counts(old(state)@, final(state)@),
            r.is_ok() <==> can_store(old(state)@, self),
            r.is_err() ==> r == Err::<(), Error>(Error::StorageDepositNotEnoughFunds),
    {
        proof {
            if refcounts_exact(state@) {
                lemma_stored_keeps_refcounts(state@, self, *config);
            }
        }
        let version = config.schedule.instruction_weights_version;
        let hash = self.code_hash;
        match state.code(&hash) {
            Some(existing) => {
                if existing.instruction_weights_version < version {
                    let entry = CodeEntry {
                        pristine: to_vec(existing.pristine.as_slice()),
                        instrumented: self.instrumented,
                        instruction_weights_version: version,
                        owner: existing.owner,
                        deposit: existing.deposit,
                        refcount: existing.refcount,
                        determinism: existing.determinism,
                    };
                    state.set_code(&hash, Some(entry));
                }
                Ok(())
            },
            None => {
                match reserve(state, &self.owner, self.deposit) {
                    Ok(()) => {},
                    Err(e) => {
                        return Err(e);
                    },
                }
                let entry = CodeEntry {
                    pristine: self.pristine,
                    instrumented: self.instrumented,
                    instruction_weights_version: version,
                    owner: self.owner,
                    deposit: self.deposit,
                    refcount: 0,
                    determinism: self.determinism,
                };
                state.set_code(&hash, Some(entry));
                state.deposit_event(record_with_topic(Event::CodeStored { code_hash: hash }, hash));
                Ok(())
            },
        }
    }
}

/// The weight of loading `len` bytes of instrumented code.
pub open spec fn load_weight(config: Config, len: nat) -> crate::weight::Weight {
    config.schedule.code_load_per_byte.spec_saturating_mul(capped(len as int,
        u64::MAX as int) as u64)
}

/// The weight of instrumenting `len` bytes of pristine code again.
pub open spec fn reinstrument_weight(config: Config, len: nat) -> crate::weight::Weight {
    config.schedule.reinstrument_per_byte.spec_saturating_mul(
        capped(len as int, u64::MAX as int) as u64,
    )
}

fn len_u64(len: usize) -> (r: u64)
    ensures
        r == capped(len as int, u64::MAX as int),
{
    len as u64
}

/// Whether the instrumented form of the code under `hash` was made under older instruction
/// weights than the current ones, so that it has to be made anew before it runs.
pub open spec fn is_stale(s: StateView, config: Config, hash: Seq<u8>) -> bool {
    s.codes[hash].instruction_weights_version < config.schedule.instruction_weights_version
}

/// Looks up the code under `hash` for execution and charges for loading it, by the byte of
/// its instrumented form.
///
/// Fails with `CodeNotFound`, charging nothing, where no code is stored under `hash`, and
/// with `OutOfGas`, charging nothing, where the meter cannot pay for the load.
pub fn load(state: &State, config: &Config, hash: &CodeHash, gas_meter: &mut GasMeter) -> (r:
    Result<LoadedCode, Error>)
    requires
        state.wf(),
        old(gas_meter).wf(),
    ensures
        final(gas_meter).wf(),
        final(gas_meter).limit() == old(gas_meter).limit(),
        final(gas_meter).lowest() == old(gas_meter).lowest().spec_min(final(gas_meter).left()),
        match r {
            Ok(code) => {
                &&& state@.codes.contains_key(hash@)
                &&& load_weight(*config, state@.codes[hash@].instrumented.len()).all_lte(
                    old(gas_meter).left(),
                )
                &&& final(gas_meter).left() == old(gas_meter).left().spec_saturating_sub(
                    load_weight(*config, state@.codes[hash@].instrumented.len()),
                )
                &&& code.code_hash == *hash
                &&& code.stale == is_stale(state@, *config, hash@)
                &&& code.determinism == state@.codes[hash@].determinism
            },
            Err(e) => {
                &&& *final(gas_meter) == *old(gas_meter)
                &&& if !state@.codes.contains_key(hash@) {
                    e == Error::CodeNotFound
                } else {
                    e == Error::OutOfGas && !load_weight(
                        *config,
                        state@.codes[hash@].instrumented.len(),
                    ).all_lte(old(gas_meter).left())
                }
            },
        },
{
    match state.code(hash) {
        None => Err(Error::CodeNotFound),
        Some(entry) => {
            let weight = config.schedule.code_load_per_byte.saturating_mul(
                len_u64(entry.instrumented.len()),
            );
            match gas_meter.charge(weight) {
                Err(e) => Err(e),
                Ok(()) => Ok(
                    LoadedCode {
                        code_hash: *hash,
                        stale: entry.instruction_weights_version
                            < config.schedule.instruction_weights_version,
                        determinism: entry.determinism,
                    },
                ),
            }
        },
    }
}

/// The ledger after the code under `hash` got a new instrumentation.
pub open spec fn reinstrumented(
    s: StateView,
    config: Config,
    hash: Seq<u8>,
    instrumented: Seq<u8>,
) -> StateView {
    s.set_code(
        hash,
        Some(
            CodeEntryView {
                instrumented,
                instruction_weights_version: config.schedule.instruction_weights_version,
                ..s.codes[hash]
            },
        ),
    )
}

/// Replaces the instrumented form of the code under `hash` by one made under the current
/// instruction weights, and charges for the instrumentation by the byte of pristine code.
///
/// Fails, changing and charging nothing: with `CodeNotFound` where no code is stored under
/// `hash`, with `CodeTooLarge` where the new form exceeds the configured length, and with
/// `OutOfGas` where the meter cannot pay.
pub fn reinstrument(
    state: &mut State,
    config: &Config,
    hash: &CodeHash,
    instrumented: Vec<u8>,
    gas_meter: &mut GasMeter,
) -> (r: Result<(), Error>)
    requires
        old(state).wf(),
        old(gas_meter).wf(),
    ensures
        final(state).wf(),
        final(state).extends(*old(state)),
        conserves(old(state)@, final(state)@),
        keeps_counts(old(state)@, final(state)@),
        final(gas_meter).wf(),
        final(gas_meter).limit() == old(gas_meter).limit(),
        match r {
            Ok(()) => {
                &&& old(state)@.codes.contains_key(hash@)
                &&& instrumented@.len() <= config.max_code_len
                &&& reinstrument_weight(*config, old(state)@.codes[hash@].pristine.len()).all_lte(
                    old(gas_meter).left(),
                )
                &&& final(gas_meter).left() == old(gas_meter).left().spec_saturating_sub(
                    reinstrument_weight(*config, old(state)@.codes[hash@].pristine.len()),
                )
                &&& final(state)@ == reinstrumented(old(state)@, *config, hash@, instrumented@)
            },
            Err(e) => {
                &&& final(state)@ == old(state)@
                &&& *final(gas_meter) == *old(gas_meter)
                &&& if !old(state)@.codes.contains_key(hash@) {
                    e == Error::CodeNotFound
                } else if instrumented@.len() > config.max_code_len {
                    e == Error::CodeTooLarge
                } else {
                    e == Error::OutOfGas && !reinstrument_weight(
                        *config,
                        old(state)@.codes[hash@].pristine.len(),
                    ).all_lte(old(gas_meter).left())
                }
            },
        },
{
    proof {
        if refcounts_exact(state@) && state@.codes.contains_key(hash@) {
            lemma_reinstrumented_keeps_refcounts(state@, *config, hash@, instrumented@);
        }
    }
    let entry = match state.code(hash) {
        None => {
            return Err(Error::CodeNotFound);
        },
        Some(existing) => {
            if instrumented.len() > config.max_code_len as usize {
                return Err(Error::CodeTooLarge);
            }
            let weight = config.schedule.reinstrument_per_byte.saturating_mul(
                len_u64(existing.pristine.len()),
            );
            match gas_meter.charge(weight) {
                Err(e) => {
                    return Err(e);
                },
                Ok(()) => {},
            }
            CodeEntry {
                pristine: to_vec(existing.pristine.as_slice()),
                instrumented,
                instruction_weights_version: config.schedule.instruction_weights_version,
                owner: existing.owner,
                deposit: existing.deposit,
                refcount: existing.refcount,
                determinism: existing.determinism,
            }
        },
    };
    state.set_code(hash, Some(entry));
    Ok(())
}

/// The user count after one more user, capped at `u64::MAX`.
pub open spec fn one_more(refcount: u64) -> u64 {
    capped(refcount + 1, u64::MAX as int) as u64
}

/// The user count after one user less, floored at zero.
pub open spec fn one_less(refcount: u64) -> u64 {
    floor_sub(refcount as int, 1) as u64
}

/// Counts one more contract that uses the code under `hash`. Fails with `CodeNotFound`, and
/// changes nothing, where no code is stored there.
pub fn add_user(state: &mut State, hash: &CodeHash) -> (r: Result<(), Error>)
    requires
        old(state).wf(),
    ensures
        final(state).wf(),
        final(state).extends(*old(state)),
        r.is_ok() <==> old(state)@.codes.contains_key(hash@),
        r.is_ok() ==> final(state)@ == old(state)@.set_refcount(
            hash@,
            one_more(old(state)@.codes[hash@].refcount),
        ),
        r.is_err() ==> r == Err::<(), Error>(Error::CodeNotFound) && final(state)@ == old(state)@,
{
    let refcount = match state.code(hash) {
        None => {
            return Err(Error::CodeNotFound);
        },
        Some(entry) => entry.refcount,
    };
    state.set_refcount(hash, refcount.saturating_add(1));
    Ok(())
}

/// Counts one contract less that uses the code under `hash`. The code stays stored when the
/// count reaches zero. Where no code is stored under `hash`, nothing changes.
pub fn remove_user(state: &mut State, hash: &CodeHash)
    requires
        old(state).wf(),
    ensures
        final(state).wf(),
        final(state).extends(*old(state)),
        final(state)@ == if old(state)@.codes.contains_key(hash@) {
            old(state)@.set_refcount(hash@, one_less(old(state)@.codes[hash@].refcount))
        } else {
            old(state)@
        },
{
    let refcount = match state.code(hash) {
        None => {
            return ;
        },
        Some(entry) => entry.refcount,
    };
    state.set_refcount(hash, refcount.saturating_sub(1));
}

/// The ledger after the code under `hash` was removed: the deposit released to the owner,
/// the entry gone, `CodeRemoved` deposited.
pub open spec fn removed(s: StateView, hash: CodeHash) -> StateView {
    let entry = s.codes[hash@];
    let refunded = unreserved(s, entry.owner@, entry.deposit).set_code(hash@, None);
    StateView {
        events: refunded.events.push(indexed(EventView::CodeRemoved { code_hash: hash }, hash)),
        ..refunded
    }
}

/// Removes the code under `hash` on behalf of `origin` and releases its deposit.
///
/// Fails, and changes nothing: with `CodeNotFound` where no code is stored under `hash`;
/// with `CodeInUse` where a contract uses it; with `BadOrigin` where `origin` is not its owner.
pub fn remove_code(state: &mut State, origin: &AccountId, hash: &CodeHash) -> (r: Result<
    (),
    DispatchError,
>)
    requires
        old(state).wf(),
    ensures
        final(state).wf(),
        final(state).extends(*old(state)),
        r == remove_result(old(state)@, origin@, hash@),
        r.is_ok() ==> final(state)@ == removed(old(state)@, *hash),
        r.is_err() ==> final(state)@ == old(state)@,
        conserves(old(state)@, final(state)@),
        keeps_counts(old(state)@, final(state)@),
{
    proof {
        if refcounts_exact(state@) && remove_result(state@, origin@, hash@).is_ok() {
            lemma_removed_keeps_refcounts(state@, *hash);
        }
    }
    let (owner, deposit) = match state.code(hash) {
        None => {
            return Err(DispatchError::Contract(Error::CodeNotFound));
        },
        Some(entry) => {
            if entry.refcount > 0 {
                return Err(DispatchError::Contract(Error::CodeInUse));
            }
            if !bytes_eq(entry.owner.as_slice(), origin.as_slice()) {
                return Err(DispatchError::BadOrigin);
            }
            (entry.owner, entry.deposit)
        },
    };
    unreserve(state, &owner, deposit);
    state.set_code(hash, None);
    state.deposit_event(record_with_topic(Event::CodeRemoved { code_hash: *hash }, *hash));
    Ok(())
}

/// What `remove_code` returns.
pub open spec fn remove_result(s: StateView, origin: Seq<u8>, hash: Seq<u8>) -> Result<
    (),
    DispatchError,
> {
    if !s.codes.contains_key(hash) {
        Err(DispatchError::Contract(Error::CodeNotFound))
    } else if s.codes[hash].refcount > 0 {
        Err(DispatchError::Contract(Error::CodeInUse))
    } else if s.codes[hash].owner@ != origin {
        Err(DispatchError::BadOrigin)
    } else {
        Ok(())
    }
}

/// Whether `store` succeeds: the code is stored already, or the owner can pay the deposit.
pub open spec fn can_store(s: StateView, m: PrefabWasmModule) -> bool {
    s.codes.contains_key(m.code_hash@) || (s.balance(m.owner@).free >= m.deposit && s.balance(
        m.owner@,
    ).reserved + m.deposit <= u128::MAX)
}

/// The ledger after `store`.
pub open spec fn stored(s: StateView, m: PrefabWasmModule, config: Config) -> StateView {
    let version = config.schedule.instruction_weights_version;
    let hash = m.code_hash@;
    if s.codes.contains_key(hash) {
        let existing = s.codes[hash];
        if existing.instruction_weights_version < version {
            s.set_code(
                hash,
                Some(
                    CodeEntryView {
                        instrumented: m.instrumented@,
                        instruction_weights_version: version,
                        ..existing
                    },
                ),
            )
        } else {
            s
        }
    } else if can_store(s, m) {
        let paid = reserved(s, m.owner@, m.deposit).set_code(hash, Some(new_entry(m, version)));
        StateView {
            events: paid.events.push(
                indexed(EventView::CodeStored { code_hash: m.code_hash }, m.code_hash),
            ),
            ..paid
        }
    } else {
        s
    }
}

} // verus!
