use pallet_contracts::deposit::StorageDeposit::{Charge, Refund};
use pallet_contracts::deposit::{Diff, Meter, StorageDeposit};
use pallet_contracts::error::{DispatchError, Error};
use pallet_contracts::gas::GasMeter;
use pallet_contracts::weight::{saturating_mul_u128, saturating_mul_u64, Weight};

fn w(ref_time: u64, proof_size: u64) -> Weight {
    Weight::from_parts(ref_time, proof_size)
}

#[test]
fn weight_saturating_add_caps_each_component() {
    let sum = w(u64::MAX - 1, 5).saturating_add(&w(7, 6));
    assert_eq!(sum, w(u64::MAX, 11));
}

#[test]
fn weight_saturating_sub_floors_each_component() {
    assert_eq!(w(10, 3).saturating_sub(&w(4, 9)), w(6, 0));
}

#[test]
fn weight_checked_sub_needs_both_components() {
    assert_eq!(w(10, 3).checked_sub(&w(4, 3)), Some(w(6, 0)));
    assert_eq!(w(10, 3).checked_sub(&w(4, 4)), None);
    assert_eq!(w(10, 3).checked_sub(&w(11, 0)), None);
}

#[test]
fn weight_min_and_mul_are_componentwise() {
    assert_eq!(w(10, 3).min(&w(4, 9)), w(4, 3));
    assert_eq!(w(10, 3).saturating_mul(5), w(50, 15));
    assert_eq!(w(u64::MAX / 2, 1).saturating_mul(3), w(u64::MAX, 3));
    assert!(Weight::zero().is_zero());
    assert!(w(1, 2).all_lte_exec(&w(1, 3)));
    assert!(!w(2, 2).all_lte_exec(&w(1, 3)));
}

#[test]
fn saturating_products_cap() {
    assert_eq!(saturating_mul_u64(6, 7), 42);
    assert_eq!(saturating_mul_u64(u64::MAX, 2), u64::MAX);
    assert_eq!(saturating_mul_u128(6, 7), 42);
    assert_eq!(saturating_mul_u128(u128::MAX, 2), u128::MAX);
}

#[test]
fn gas_charge_deducts_or_fails_without_change() {
    let mut meter = GasMeter::new(w(100, 50));
    assert_eq!(meter.charge(w(30, 10)), Ok(()));
    assert_eq!(meter.gas_left(), w(70, 40));
    assert_eq!(meter.gas_consumed(), w(30, 10));
    assert_eq!(meter.charge(w(71, 0)), Err(Error::OutOfGas));
    assert_eq!(meter.charge(w(0, 41)), Err(Error::OutOfGas));
    assert_eq!(meter.gas_left(), w(70, 40));
    assert_eq!(meter.gas_limit(), w(100, 50));
}

#[test]
fn gas_limit_is_consumed_plus_left() {
    let mut meter = GasMeter::new(w(1000, 500));
    meter.charge(w(123, 45)).unwrap();
    let consumed = meter.gas_consumed();
    let left = meter.gas_left();
    assert_eq!(consumed.ref_time + left.ref_time, 1000);
    assert_eq!(consumed.proof_size + left.proof_size, 500);
}

#[test]
fn nested_meter_gets_the_smaller_of_limit_and_rest() {
    let mut parent = GasMeter::new(w(100, 100));
    parent.charge(w(10, 10)).unwrap();
    let child = parent.nested(w(40, 500));
    assert_eq!(child.gas_limit(), w(40, 90));
    assert_eq!(child.gas_left(), w(40, 90));
    assert_eq!(parent.gas_left(), w(50, 0));
}

#[test]
fn parent_absorbs_what_the_child_consumed() {
    let mut parent = GasMeter::new(w(100, 100));
    parent.charge(w(10, 10)).unwrap();
    let mut child = parent.nested(w(40, 40));
    child.charge(w(25, 5)).unwrap();
    parent.absorb_nested(child, false);
    assert_eq!(parent.gas_consumed(), w(35, 15));
    assert_eq!(parent.gas_left(), w(65, 85));
}

#[test]
fn trapped_child_costs_its_whole_budget() {
    let mut parent = GasMeter::new(w(100, 100));
    let mut child = parent.nested(w(40, 40));
    child.charge(w(1, 1)).unwrap();
    parent.absorb_nested(child, true);
    assert_eq!(parent.gas_consumed(), w(40, 40));
}

#[test]
fn gas_required_remembers_the_lowest_rest() {
    let mut meter = GasMeter::new(w(100, 100));
    let child = meter.nested(w(60, 60));
    meter.absorb_nested(child, false);
    assert_eq!(meter.gas_left(), w(100, 100));
    assert_eq!(meter.gas_required(), w(60, 60));
}

#[test]
fn a_meter_that_gave_all_takes_over_the_lowest_rest_of_the_sub_call() {
    let mut meter = GasMeter::new(w(100, 100));
    meter.charge(w(10, 0)).unwrap();
    // All of the first dimension goes to the sub-call, and part of the second.
    let mut child = meter.nested(w(90, 30));
    assert_eq!(meter.gas_left(), w(0, 70));
    child.charge(w(25, 5)).unwrap();
    meter.absorb_nested(child, false);
    assert_eq!(meter.gas_left(), w(65, 95));
    assert_eq!(meter.gas_consumed(), w(35, 5));
    assert_eq!(meter.gas_required(), w(35, 30));

    let mut meter = GasMeter::new(w(100, 100));
    let child = meter.nested(w(100, 100));
    meter.absorb_nested(child, true);
    assert_eq!(meter.gas_left(), w(0, 0));
    assert_eq!(meter.gas_required(), w(100, 100));
}

#[test]
fn dispatch_result_carries_consumed_plus_base_weight() {
    let mut meter = GasMeter::new(w(100, 100));
    meter.charge(w(30, 20)).unwrap();
    let ok = meter.into_dispatch_result(Ok(()), w(5, 1)).unwrap();
    assert_eq!(ok.actual_weight, Some(w(35, 21)));
    assert!(ok.pays_fee);
    let err = meter
        .into_dispatch_result(Err(DispatchError::Contract(Error::ContractTrapped)), w(5, 1))
        .unwrap_err();
    assert_eq!(err.0.actual_weight, Some(w(35, 21)));
    assert_eq!(err.1, DispatchError::Contract(Error::ContractTrapped));
}

#[test]
fn storage_deposit_adds_signed_amounts() {
    assert_eq!(Charge(5).saturating_add(&Charge(7)), Charge(12));
    assert_eq!(Refund(5).saturating_add(&Refund(7)), Refund(12));
    assert_eq!(Charge(5).saturating_add(&Refund(7)), Refund(2));
    assert_eq!(Charge(7).saturating_add(&Refund(5)), Charge(2));
    assert_eq!(Charge(5).saturating_add(&Refund(5)), Charge(0));
    assert_eq!(Refund(5).saturating_add(&Charge(5)), Charge(0));
    assert_eq!(Refund(7).saturating_add(&Charge(5)), Refund(2));
    assert_eq!(Charge(u128::MAX).saturating_add(&Charge(1)), Charge(u128::MAX));
}

#[test]
fn storage_deposit_available_and_zero() {
    assert_eq!(Charge(30).available(100), 70);
    assert_eq!(Charge(130).available(100), 0);
    assert_eq!(Refund(30).available(100), 130);
    assert_eq!(Charge(30).charge_or_zero(), 30);
    assert_eq!(Refund(30).charge_or_zero(), 0);
    assert!(StorageDeposit::zero().is_zero());
    assert!(Refund(0).is_zero());
    assert!(!Refund(1).is_zero());
}

#[test]
fn diff_deposit_prices_bytes_and_items() {
    let grow = Diff { bytes_added: 100, bytes_removed: 0, items_added: 1, items_removed: 0 };
    assert_eq!(grow.deposit(1, 2), StorageDeposit::Charge(102));
    let shrink = Diff { bytes_added: 0, bytes_removed: 100, items_added: 0, items_removed: 1 };
    assert_eq!(shrink.deposit(1, 2), StorageDeposit::Refund(102));
    let mixed = Diff { bytes_added: 10, bytes_removed: 0, items_added: 0, items_removed: 1 };
    assert_eq!(mixed.deposit(3, 50), StorageDeposit::Refund(20));
    assert_eq!(Diff::none().deposit(3, 50), StorageDeposit::Refund(0));
}

#[test]
fn root_meter_limit_defaults_to_what_the_origin_can_spare() {
    let meter = Meter::new(1000, None, 100, 10).unwrap();
    assert_eq!(meter.deposit_limit(), 890);
    let meter = Meter::new(1000, Some(890), 100, 10).unwrap();
    assert_eq!(meter.deposit_limit(), 890);
    assert_eq!(meter.total_deposit(), StorageDeposit::Charge(0));
}

#[test]
fn root_meter_refuses_a_limit_beyond_the_balance() {
    let refused = Meter::new(1000, Some(891), 100, 10);
    assert_eq!(refused.unwrap_err(), Error::StorageDepositNotEnoughFunds);
}

#[test]
fn nested_meter_is_bounded_by_limit_and_rest() {
    let mut meter = Meter::new(1000, Some(500), 0, 0).unwrap();
    meter.charge(StorageDeposit::Charge(200));
    assert_eq!(meter.nested(None).deposit_limit(), 300);
    assert_eq!(meter.nested(Some(100)).deposit_limit(), 100);
    assert_eq!(meter.nested(Some(400)).deposit_limit(), 300);
}

#[test]
fn meter_enforces_its_limit_on_charges_only() {
    let mut meter = Meter::new(1000, Some(100), 0, 0).unwrap();
    meter.charge(StorageDeposit::Charge(100));
    assert_eq!(meter.enforce_limit(), Ok(()));
    meter.charge(StorageDeposit::Charge(1));
    assert_eq!(meter.enforce_limit(), Err(Error::StorageDepositLimitExhausted));
    let mut child = meter.nested(None);
    child.charge(StorageDeposit::Refund(50));
    assert_eq!(child.enforce_limit(), Ok(()));
    meter.absorb(child);
    assert_eq!(meter.total_deposit(), StorageDeposit::Charge(51));
}
