//! The gas meter: a compute budget for one call, with nested budgets for sub-calls.

use vstd::prelude::*;
use crate::error::{DispatchError, Error};
use crate::weight::Weight;

verus! {

/// What a dispatchable reports about the weight it actually used.
#[derive(Clone, Copy, Debug, PartialEq, Eq, Structural)]
pub struct PostDispatchInfo {
    /// The weight actually consumed.
    pub actual_weight: Option<Weight>,
    /// Whether the fee for the operation is charged.
    pub pays_fee: bool,
}

/// Result of a dispatchable that reports its actual weight on success and on failure.
pub type DispatchResultWithPostInfo = Result<PostDispatchInfo, (PostDispatchInfo, DispatchError)>;

/// A budget of weight. `gas_left` never exceeds `gas_limit`; the lowest amount ever left is
/// remembered so that the weight a call needs to succeed can be reported.
#[derive(Clone, Copy, Debug)]
pub struct GasMeter {
    gas_limit: Weight,
    gas_left: Weight,
    gas_left_lowest: Weight,
}

impl GasMeter {
    pub closed spec fn limit(self) -> Weight {
        self.gas_limit
    }

    pub closed spec fn left(self) -> Weight {
        self.gas_left
    }

    pub closed spec fn lowest(self) -> Weight {
        self.gas_left_lowest
    }

    /// Invariant of every meter: `lowest <= left <= limit` in both dimensions.
    pub open spec fn wf(self) -> bool {
        self.lowest().all_lte(self.left()) && self.left().all_lte(self.limit())
    }

    /// The weight used so far: `limit - left`.
    pub open spec fn consumed(self) -> Weight {
        self.limit().spec_saturating_sub(self.left())
    }

    /// The weight that a limit must at least have had for the execution so far.
    pub open spec fn required(self) -> Weight {
        self.limit().spec_saturating_sub(self.lowest())
    }

    /// A fresh meter with nothing consumed.
    pub fn new(gas_limit: Weight) -> (m: GasMeter)
        ensures
            m.wf(),
            m.limit() == gas_limit,
            m.left() == gas_limit,
            m.lowest() == gas_limit,
    {
        GasMeter { gas_limit, gas_left: gas_limit, gas_left_lowest: gas_limit }
    }

    /// Sets aside a budget for a sub-call and returns a meter over it. The budget is `limit`,
    /// or all that is left where less than `limit` is left.
    pub fn nested(&mut self, limit: Weight) -> (child: GasMeter)
        requires
            old(self).wf(),
        ensures
            final(self).wf(),
            child.wf(),
            child.limit() == limit.spec_min(old(self).left()),
            child.left() == child.limit(),
            child.lowest() == child.limit(),
            final(self).limit() == old(self).limit(),
            final(self).left() == old(self).left().spec_saturating_sub(child.limit()),
            final(self).lowest() == old(self).lowest().spec_min(final(self).left()),
    {
        let amount = limit.min(&self.gas_left);
        self.gas_left = self.gas_left.saturating_sub(&amount);
        self.gas_left_lowest = self.gas_left_lowest.min(&self.gas_left);
        GasMeter::new(amount)
    }

    /// The lowest rest of this meter once it has taken back the budget `nested` of a
    /// sub-call, in each dimension by itself. A meter that had given the sub-call all that it
    /// had was at nothing meanwhile, and not for want of more: it takes over the lowest rest
    /// of the sub-call. A meter that kept a rest was lowest when it set the budget aside, and
    /// remembers that. After a trap the whole budget counts as needed.
    pub open spec fn lowest_after(self, nested: GasMeter, trapped: bool) -> Weight {
        let inherited = nested.lowest().spec_min(self.limit());
        Weight {
            ref_time: if !trapped && self.left().ref_time == 0 {
                inherited.ref_time
            } else {
                self.lowest().ref_time
            },
            proof_size: if !trapped && self.left().proof_size == 0 {
                inherited.proof_size
            } else {
                self.lowest().proof_size
            },
        }
    }

    /// Takes back what a sub-call left of its budget. After a trap nothing is left of it: the
    /// whole budget counts as consumed.
    pub fn absorb_nested(&mut self, nested: GasMeter, trapped: bool)
        requires
            old(self).wf(),
            nested.wf(),
        ensures
            final(self).wf(),
            final(self).limit() == old(self).limit(),
            final(self).lowest() == old(self).lowest_after(nested, trapped),
            final(self).left() == old(self).left().spec_saturating_add(
                if trapped {
                    Weight { ref_time: 0, proof_size: 0 }
                } else {
                    nested.left()
                },
            ).spec_min(old(self).limit()),
    {
        let back = if trapped {
            Weight::zero()
        } else {
            nested.gas_left
        };
        let inherited = nested.gas_left_lowest.min(&self.gas_limit);
        if !trapped {
            self.gas_left_lowest = Weight {
                ref_time: if self.gas_left.ref_time == 0 {
                    inherited.ref_time
                } else {
                    self.gas_left_lowest.ref_time
                },
                proof_size: if self.gas_left.proof_size == 0 {
                    inherited.proof_size
                } else {
                    self.gas_left_lowest.proof_size
                },
            };
        }
        self.gas_left = self.gas_left.saturating_add(&back).min(&self.gas_limit);
    }

    /// Deducts `amount`. Fails with `OutOfGas`, and deducts nothing, when less is left in
    /// either dimension.
    pub fn charge(&mut self, amount: Weight) -> (r: Result<(), Error>)
        requires
            old(self).wf(),
        ensures
            final(self).wf(),
            final(self).limit() == old(self).limit(),
            amount.all_lte(old(self).left()) ==> {
                &&& r.is_ok()
                &&& final(self).left() == old(self).left().spec_saturating_sub(amount)
                &&& final(self).lowest() == old(self).lowest().spec_min(final(self).left())
            },
            !amount.all_lte(old(self).left()) ==> {
                &&& r == Err::<(), Error>(Error::OutOfGas)
                &&& *final(self) == *old(self)
            },
    {
        match self.gas_left.checked_sub(&amount) {
            Some(left) => {
                self.gas_left = left;
                self.gas_left_lowest = self.gas_left_lowest.min(&self.gas_left);
                Ok(())
            },
            None => Err(Error::OutOfGas),
        }
    }

    /// The limit the meter was made with.
    pub fn gas_limit(&self) -> (w: Weight)
        ensures
            w == self.limit(),
    {
        self.gas_limit
    }

    /// The weight that is left.
    pub fn gas_left(&self) -> (w: Weight)
        ensures
            w == self.left(),
    {
        self.gas_left
    }

    /// The weight used so far.
    pub fn gas_consumed(&self) -> (w: Weight)
        ensures
            w == self.consumed(),
    {
        self.gas_limit.saturating_sub(&self.gas_left)
    }

    /// The limit that would have been enough for the execution so far.
    pub fn gas_required(&self) -> (w: Weight)
        ensures
            w == self.required(),
    {
        self.gas_limit.saturating_sub(&self.gas_left_lowest)
    }

    /// Turns the outcome of a dispatchable into its result with the weight actually used: the
    /// gas consumed plus the fixed weight of the dispatchable itself.
    pub fn into_dispatch_result(
        self,
        result: Result<(), DispatchError>,
        base_weight: Weight,
    ) -> (r: DispatchResultWithPostInfo)
        ensures
            r == Self::dispatch_result(self.consumed(), result, base_weight),
    {
        let post_info = PostDispatchInfo {
            actual_weight: Some(self.gas_consumed().saturating_add(&base_weight)),
            pays_fee: true,
        };
        match result {
            Ok(()) => Ok(post_info),
            Err(e) => Err((post_info, e)),
        }
    }

    /// The result that a dispatchable with the given consumption returns.
    pub open spec fn dispatch_result(
        consumed: Weight,
        result: Result<(), DispatchError>,
        base_weight: Weight,
    ) -> DispatchResultWithPostInfo {
        let post_info = PostDispatchInfo {
            actual_weight: Some(consumed.spec_saturating_add(base_weight)),
            pays_fee: true,
        };
        match result {
            Ok(()) => Ok(post_info),
            Err(e) => Err((post_info, e)),
        }
    }
}

/// What is consumed plus what is left is the limit, in both dimensions.
pub proof fn lemma_gas_limit_is_consumed_plus_left(m: GasMeter)
    requires
        m.wf(),
    ensures
        m.limit().ref_time == m.consumed().ref_time + m.left().ref_time,
        m.limit().proof_size == m.consumed().proof_size + m.left().proof_size,
{
}

/// What a meter reports as required is within its limit and covers what it has consumed,
/// in both dimensions.
pub proof fn lemma_required_is_between_consumed_and_limit(m: GasMeter)
    requires
        m.wf(),
    ensures
        m.consumed().all_lte(m.required()),
        m.required().all_lte(m.limit()),
{
}

/// A parent that set a budget aside and took the rest back has consumed, through the
/// sub-call, exactly what the sub-call consumed: never less than its child.
pub proof fn lemma_parent_consumes_what_child_consumed(
    before: GasMeter,
    during: GasMeter,
    child_start: GasMeter,
    child_end: GasMeter,
    after: GasMeter,
)
    requires
        before.wf(),
        child_end.wf(),
        child_start.limit() == child_end.limit(),
        // `nested` was called on `before` and gave `during` and `child_start`
        child_start.limit().all_lte(before.left()),
        during.limit() == before.limit(),
        during.left() == before.left().spec_saturating_sub(child_start.limit()),
        // `absorb_nested` was called on `during` with `child_end`, without a trap
        after.limit() == during.limit(),
        after.left() == during.left().spec_saturating_add(child_end.left()).spec_min(
            during.limit(),
        ),
    ensures
        after.consumed().ref_time == before.consumed().ref_time + child_end.consumed().ref_time,
        after.consumed().proof_size == before.consumed().proof_size
            + child_end.consumed().proof_size,
{
}

} // verus!
