use htlc_escrow::error::EscrowError;
use htlc_escrow::timelocks::{Stage, TimelocksLib};
use htlc_escrow::u256::U256;

fn offsets() -> [u32; 7] {
    [10, 20, 30, 40, 15, 25, 35]
}

#[test]
fn packed_offsets_sit_in_their_slots() {
    let packed = TimelocksLib::pack(&offsets());
    assert_eq!(packed.lo, 10 | (20u128 << 32) | (30u128 << 64) | (40u128 << 96));
    assert_eq!(packed.hi, 15 | (25u128 << 32) | (35u128 << 64));
    assert_eq!(TimelocksLib::deployed_at(packed), 0);
    for stage in 0..7u32 {
        assert_eq!(TimelocksLib::get(packed, stage), U256::from_u64(offsets()[stage as usize] as u64));
    }
}

#[test]
fn deadline_is_deployment_time_plus_offset() {
    let packed = TimelocksLib::pack(&offsets());
    let stamped = TimelocksLib::set_deployed_at(packed, U256::from_u64(1_700_000_000)).unwrap();
    assert_eq!(TimelocksLib::deployed_at(stamped), 1_700_000_000);
    assert_eq!(stamped.lo, packed.lo);
    assert_eq!(stamped.hi, packed.hi | (1_700_000_000u128 << 96));
    assert_eq!(TimelocksLib::get(stamped, Stage::SrcWithdrawal.index()), U256::from_u64(1_700_000_010));
    assert_eq!(TimelocksLib::get(stamped, Stage::SrcPublicWithdrawal.index()), U256::from_u64(1_700_000_020));
    assert_eq!(TimelocksLib::get(stamped, Stage::SrcCancellation.index()), U256::from_u64(1_700_000_030));
    assert_eq!(TimelocksLib::get(stamped, Stage::SrcPublicCancellation.index()), U256::from_u64(1_700_000_040));
    assert_eq!(TimelocksLib::get(stamped, Stage::DstWithdrawal.index()), U256::from_u64(1_700_000_015));
    assert_eq!(TimelocksLib::get(stamped, Stage::DstPublicWithdrawal.index()), U256::from_u64(1_700_000_025));
    assert_eq!(TimelocksLib::get(stamped, Stage::DstCancellation.index()), U256::from_u64(1_700_000_035));
}

#[test]
fn largest_values_do_not_wrap() {
    let packed = TimelocksLib::pack(&[u32::MAX; 7]);
    let stamped = TimelocksLib::set_deployed_at(packed, U256::from_u64(u32::MAX as u64)).unwrap();
    assert_eq!(stamped, U256 { hi: u128::MAX, lo: u128::MAX });
    for stage in 0..7u32 {
        assert_eq!(TimelocksLib::get(stamped, stage), U256::from_u64(2 * (u32::MAX as u64)));
    }
}

#[test]
fn deployment_time_is_stamped_once() {
    let packed = TimelocksLib::pack(&offsets());
    let stamped = TimelocksLib::set_deployed_at(packed, U256::from_u64(500)).unwrap();
    let again = TimelocksLib::set_deployed_at(stamped, U256::from_u64(600));
    assert_eq!(again, Err(EscrowError::AlreadyExists));
    let same = TimelocksLib::set_deployed_at(stamped, U256::from_u64(500));
    assert_eq!(same, Err(EscrowError::AlreadyExists));
    let cleared = TimelocksLib::set_deployed_at(stamped, U256::from_u64(0));
    assert_eq!(cleared, Err(EscrowError::AlreadyExists));
    let unmarked = TimelocksLib::set_deployed_at(packed, U256::from_u64(0));
    assert_eq!(unmarked, Err(EscrowError::ValidationError));
    let first = TimelocksLib::set_deployed_at(packed, U256::from_u64(1)).unwrap();
    assert_eq!(TimelocksLib::deployed_at(first), 1);
}

#[test]
fn deployment_time_must_fit() {
    let packed = TimelocksLib::pack(&offsets());
    let fits = TimelocksLib::set_deployed_at(packed, U256::from_u64(u32::MAX as u64));
    assert!(fits.is_ok());
    let too_large = TimelocksLib::set_deployed_at(packed, U256::from_u64(u32::MAX as u64 + 1));
    assert_eq!(too_large, Err(EscrowError::AmountOverflow));
    let huge = TimelocksLib::set_deployed_at(packed, U256 { hi: 1, lo: 5 });
    assert_eq!(huge, Err(EscrowError::AmountOverflow));
}

#[test]
fn rescue_starts_after_the_delay() {
    let packed = TimelocksLib::pack(&offsets());
    let stamped = TimelocksLib::set_deployed_at(packed, U256::from_u64(1000)).unwrap();
    assert_eq!(TimelocksLib::rescue_start(stamped, U256::from_u64(86_400)), Ok(U256::from_u64(87_400)));
    assert_eq!(
        TimelocksLib::rescue_start(stamped, U256 { hi: 3, lo: u128::MAX }),
        Ok(U256 { hi: 4, lo: 999 })
    );
    assert_eq!(
        TimelocksLib::rescue_start(stamped, U256 { hi: u128::MAX, lo: u128::MAX }),
        Err(EscrowError::AmountOverflow)
    );
    assert_eq!(TimelocksLib::rescue_start(packed, U256::from_u64(7)), Ok(U256::from_u64(7)));
}

#[test]
fn stage_slots_are_in_order() {
    let stages = [
        Stage::SrcWithdrawal,
        Stage::SrcPublicWithdrawal,
        Stage::SrcCancellation,
        Stage::SrcPublicCancellation,
        Stage::DstWithdrawal,
        Stage::DstPublicWithdrawal,
        Stage::DstCancellation,
    ];
    for (slot, stage) in stages.iter().enumerate() {
        assert_eq!(stage.index() as usize, slot);
    }
}

#[test]
fn wide_numbers_add_and_convert() {
    let a = U256 { hi: 0, lo: u128::MAX };
    let one = U256::from_u128(1);
    assert_eq!(a.checked_add(&one), Some(U256 { hi: 1, lo: 0 }));
    assert_eq!(a.checked_add(&a), Some(U256 { hi: 1, lo: u128::MAX - 1 }));
    let top = U256 { hi: u128::MAX, lo: u128::MAX };
    assert_eq!(top.checked_add(&one), None);
    assert_eq!(top.checked_add(&U256::from_u128(0)), Some(top));
    assert_eq!(U256 { hi: u128::MAX, lo: 0 }.checked_add(&U256 { hi: 1, lo: 0 }), None);

    assert_eq!(U256::from_u64(7).to_u128(), Some(7));
    assert_eq!(U256 { hi: 1, lo: 0 }.to_u128(), None);
    assert_eq!(U256::from_u128(i128::MAX as u128).to_i128(), Some(i128::MAX));
    assert_eq!(U256::from_u128(i128::MAX as u128 + 1).to_i128(), None);
    assert_eq!(U256 { hi: 1, lo: 0 }.to_i128(), None);

    assert!(U256::from_u64(3).less_than(&U256::from_u64(4)));
    assert!(!U256::from_u64(4).less_than(&U256::from_u64(4)));
    assert!(U256 { hi: 0, lo: u128::MAX }.less_than(&U256 { hi: 1, lo: 0 }));
    assert!(!U256 { hi: 2, lo: 0 }.less_than(&U256 { hi: 1, lo: u128::MAX }));
}
