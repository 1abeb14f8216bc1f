use casper_era::{GasUsage, MeteringPoints};

#[test]
fn gas_spent_is_limit_minus_remaining() {
    let g = GasUsage { gas_limit: 1000, remaining_points: 250 };
    assert_eq!(g.gas_spent(), 750);
    let all = GasUsage { gas_limit: 9, remaining_points: 0 };
    assert_eq!(all.gas_spent(), 9);
}

#[test]
fn remaining_points_convert() {
    assert_eq!(MeteringPoints::Remaining(12).try_into_remaining(), Ok(12));
    assert_eq!(
        MeteringPoints::Exhausted.try_into_remaining(),
        Err(MeteringPoints::Exhausted)
    );
}
