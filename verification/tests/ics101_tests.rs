use side_contracts::decimal::Decimal;
use side_contracts::ics101::approx_pow::calculate_pow;
use side_contracts::ics101::math::solve_constant_function_invariant;
use side_contracts::ics101::state::{instantiate, Config};
use side_contracts::ics101::utils::adjust_precision;

const ONE: u128 = 1_000_000_000_000_000_000;

fn dec(whole: u128, frac_atomics: u128) -> Decimal {
    Decimal { atomics: whole * ONE + frac_atomics }
}

#[test]
fn check_approx_pow() {
    let precision = Some(dec(0, 10_000_000_000)); // 0.00000001
    // 1.45^1.5 starts with 1.74603121
    let res = calculate_pow(dec(1, 450_000_000_000_000_000), dec(1, 500_000_000_000_000_000), precision);
    assert_eq!(res.unwrap().atomics / 10_000_000_000, 174_603_121);
    // 1.05^3.5 starts with 1.186212638
    let res = calculate_pow(dec(1, 50_000_000_000_000_000), dec(3, 500_000_000_000_000_000), precision);
    assert_eq!(res.unwrap().atomics / 1_000_000_000, 1_186_212_638);
    // 0.91^1.85 starts with 0.839898055
    let res = calculate_pow(dec(0, 910_000_000_000_000_000), dec(1, 850_000_000_000_000_000), precision);
    assert_eq!(res.unwrap().atomics / 1_000_000_000, 839_898_055);
}

#[test]
fn test_solve_constant_function_invariant() {
    let token_balance_fixed_before = dec(500_000_000_000, 0);
    let token_balance_fixed_after = dec(530_000_000_000, 0);
    let token_weight_fixed = dec(0, 500_000_000_000_000_000);
    let token_balance_unknown_before = dec(500_000_000_000, 0);
    let token_weight_unknown = dec(0, 500_000_000_000_000_000);

    let result = solve_constant_function_invariant(
        token_balance_fixed_before,
        token_balance_fixed_after,
        token_weight_fixed,
        token_balance_unknown_before,
        token_weight_unknown,
    );

    assert!(result.is_ok());
    let amount_y = result.unwrap();
    let res = adjust_precision(amount_y.to_uint_floor(), 12, 6).unwrap();
    assert_eq!(res, 28301u128);
}

#[test]
fn contract_test_instantiate() {
    let config = instantiate("anyone".to_string(), 1);
    assert_eq!(config, Config { counter: 0, token_code_id: 1, admin: "anyone".to_string() });
}

#[test]
fn approx_pow_of_one_is_one() {
    let res = calculate_pow(dec(1, 0), dec(2, 500_000_000_000_000_000), None).unwrap();
    assert_eq!(res.atomics, ONE);
}

#[test]
fn adjust_precision_scales_both_ways() {
    assert_eq!(adjust_precision(1_234_567, 6, 3).unwrap(), 1_234);
    assert_eq!(adjust_precision(1_234, 3, 6).unwrap(), 1_234_000);
    assert_eq!(adjust_precision(42, 6, 6).unwrap(), 42);
    assert!(adjust_precision(u128::MAX, 0, 1).is_err());
}
