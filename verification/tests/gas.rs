use fvm::gas::{
    compute_gas_outputs, compute_gas_overestimation_burn, price_list_by_epoch, GasCharge,
    GasOutputs, GasTracker, OutOfGas, PriceList, PricePeriod,
};

fn prices(multi: u64) -> PriceList {
    PriceList {
        storage_gas_multi: multi,
        on_chain_message_compute_base: 38863,
        on_chain_message_storage_base: 36,
        on_chain_message_storage_per_byte: 1,
        create_actor_compute: 1108454,
        create_actor_storage: 76,
    }
}

#[test]
fn charge_gas_within_limit() {
    let mut tracker = GasTracker::new(100, 10).unwrap();
    assert_eq!(tracker.gas_limit(), 100);
    assert_eq!(tracker.charge_gas(90), Ok(()));
    assert_eq!(tracker.gas_used(), 100);
    assert_eq!(tracker.gas_available(), 0);
    assert_eq!(tracker.charge_gas(0), Ok(()));
}

#[test]
fn charge_gas_beyond_limit_charges_nothing() {
    let mut tracker = GasTracker::new(100, 10).unwrap();
    assert_eq!(tracker.charge_gas(91), Err(OutOfGas));
    assert_eq!(tracker.gas_used(), 10);
    assert_eq!(tracker.gas_available(), 90);
    assert_eq!(tracker.charge_gas(u64::MAX), Err(OutOfGas));
    assert_eq!(tracker.gas_used(), 10);
}

#[test]
fn tracker_never_starts_beyond_its_limit() {
    assert!(GasTracker::new(10, 11).is_err());
    assert!(GasTracker::new(10, 10).is_ok());
    assert!(GasTracker::new(0, 0).is_ok());
}

#[test]
fn prices_of_messages_and_actors() {
    let charge = prices(1300).on_chain_message(100).unwrap();
    assert_eq!(charge, GasCharge { compute_gas: 38863, storage_gas: 176_800 });
    assert_eq!(charge.total(), Some(215_663));
    let create = prices(1300).on_create_actor().unwrap();
    assert_eq!(create, GasCharge { compute_gas: 1_108_454, storage_gas: 98_800 });
    assert_eq!(create.total(), Some(1_207_254));
    // a storage price beyond 64 bits is no price
    assert_eq!(prices(u64::MAX).on_chain_message(0), None);
    assert_eq!(prices(u64::MAX).on_create_actor(), None);
    assert_eq!(GasCharge { compute_gas: u64::MAX, storage_gas: 1 }.total(), None);
}

#[test]
fn price_list_of_the_last_period_that_started() {
    let schedule = [
        PricePeriod { start: 0, prices: prices(1000) },
        PricePeriod { start: 265_200, prices: prices(1300) },
    ];
    assert_eq!(price_list_by_epoch(&schedule, -1), None);
    assert_eq!(price_list_by_epoch(&schedule, 0), Some(prices(1000)));
    assert_eq!(price_list_by_epoch(&schedule, 265_199), Some(prices(1000)));
    assert_eq!(price_list_by_epoch(&schedule, 265_200), Some(prices(1300)));
    assert_eq!(price_list_by_epoch(&schedule, i64::MAX), Some(prices(1300)));
    assert_eq!(price_list_by_epoch(&[], 5), None);
}

#[test]
fn overestimation_burn() {
    // nothing used: the whole limit is burned
    assert_eq!(compute_gas_overestimation_burn(0, 1000), (0, 1000));
    // within a tenth over the used gas: nothing is burned
    assert_eq!(compute_gas_overestimation_burn(1000, 1000), (0, 0));
    assert_eq!(compute_gas_overestimation_burn(1000, 1100), (100, 0));
    // allowance 1200 - 1100 = 100: a tenth of the unused 200 is burned
    assert_eq!(compute_gas_overestimation_burn(1000, 1200), (180, 20));
    // allowance capped at the used gas: all the unused gas is burned
    assert_eq!(compute_gas_overestimation_burn(1000, 5000), (0, 4000));
    assert_eq!(compute_gas_overestimation_burn(100, 200), (10, 90));
    assert_eq!(compute_gas_overestimation_burn(u64::MAX, u64::MAX), (0, 0));
    assert_eq!(compute_gas_overestimation_burn(1, u64::MAX), (0, u64::MAX - 1));
}

fn conserved(out: &GasOutputs, fee_cap: u128, gas_limit: u64) {
    assert_eq!(
        out.base_fee_burn + out.miner_tip + out.over_estimation_burn + out.refund,
        fee_cap * gas_limit as u128
    );
}

#[test]
fn gas_outputs_share_out_what_was_reserved() {
    // base fee below the cap, premium within what the cap leaves
    let out = compute_gas_outputs(1000, 1200, 10, 20, 5).unwrap();
    assert_eq!(
        out,
        GasOutputs {
            base_fee_burn: 10_000,
            over_estimation_burn: 200,
            miner_penalty: 0,
            miner_tip: 6_000,
            refund: 24_000 - 16_200,
            gas_refund: 180,
            gas_burned: 20,
        }
    );
    conserved(&out, 20, 1200);
    // the premium is capped by what the cap leaves above the base fee
    let out = compute_gas_outputs(1000, 1200, 10, 12, 5).unwrap();
    assert_eq!(out.miner_tip, 2 * 1200);
    conserved(&out, 12, 1200);
    // a base fee above the cap: the cap is burned and the miner pays the rest
    let out = compute_gas_outputs(1000, 1200, 30, 20, 5).unwrap();
    assert_eq!(out.base_fee_burn, 20_000);
    assert_eq!(out.over_estimation_burn, 400);
    assert_eq!(out.miner_tip, 0);
    assert_eq!(out.miner_penalty, 10 * 1020);
    assert_eq!(out.refund, 24_000 - 20_400);
    conserved(&out, 20, 1200);
    // nothing used
    let out = compute_gas_outputs(0, 100, 3, 5, 1).unwrap();
    assert_eq!((out.base_fee_burn, out.over_estimation_burn, out.miner_tip, out.refund), (0, 300, 100, 100));
    conserved(&out, 5, 100);
    // no fee at all
    let out = compute_gas_outputs(7, 9, 0, 0, 0).unwrap();
    conserved(&out, 0, 9);
    assert_eq!(out.refund, 0);
}

#[test]
fn gas_outputs_refuse_what_cannot_be_counted() {
    assert_eq!(compute_gas_outputs(11, 10, 1, 1, 1), None);
    assert_eq!(compute_gas_outputs(1, 2, 1, u128::MAX, 1), None);
    assert_eq!(compute_gas_outputs(1, 2, u128::MAX, 1, 1), None);
    let out = compute_gas_outputs(1, 1, u128::MAX, u128::MAX, u128::MAX).unwrap();
    assert_eq!(out.base_fee_burn, u128::MAX);
    conserved(&out, u128::MAX, 1);
}
