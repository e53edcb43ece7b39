use moneymarket::dec::{
    decimal_division, decimal_subtraction, reverse_decimal, Decimal, DECIMAL_FRACTIONAL,
};
use moneymarket::Error;

fn dec(whole: u128) -> Decimal {
    Decimal { atoms: whole * DECIMAL_FRACTIONAL }
}

#[test]
fn from_ratio_truncates_at_18_digits() {
    let d = Decimal::from_ratio(1, 3).unwrap();
    assert_eq!(d.atoms, 333_333_333_333_333_333);
}

#[test]
fn from_ratio_exact() {
    let d = Decimal::from_ratio(3, 2).unwrap();
    assert_eq!(d.atoms, 1_500_000_000_000_000_000);
}

#[test]
fn from_ratio_zero_denominator_fails() {
    assert_eq!(Decimal::from_ratio(1, 0), Err(Error::DivisionByZero));
}

#[test]
fn from_ratio_overflow_fails() {
    assert_eq!(Decimal::from_ratio(u128::MAX, 7), Err(Error::ArithmeticError));
}

#[test]
fn checked_add_exact_and_overflow() {
    let a = dec(1);
    let b = dec(2);
    assert_eq!(a.checked_add(b).unwrap(), dec(3));
    let big = Decimal { atoms: u128::MAX };
    assert_eq!(big.checked_add(Decimal { atoms: 1 }), Err(Error::ArithmeticError));
}

#[test]
fn checked_sub_exact_and_underflow() {
    assert_eq!(dec(3).checked_sub(dec(1)).unwrap(), dec(2));
    assert_eq!(dec(1).checked_sub(dec(3)), Err(Error::ArithmeticError));
}

#[test]
fn checked_mul_exact_and_overflow() {
    let half = Decimal { atoms: DECIMAL_FRACTIONAL / 2 };
    assert_eq!(dec(6).checked_mul(half).unwrap(), dec(3));
    let big = Decimal { atoms: u128::MAX };
    assert_eq!(big.checked_mul(big), Err(Error::ArithmeticError));
}

#[test]
fn checked_div_exact_and_zero() {
    assert_eq!(dec(3).checked_div(dec(2)).unwrap().atoms, 1_500_000_000_000_000_000);
    assert_eq!(dec(3).checked_div(Decimal { atoms: 0 }), Err(Error::DivisionByZero));
}

#[test]
fn checked_div_uint_truncates() {
    let d = dec(10).checked_div_uint(4).unwrap();
    assert_eq!(d.atoms, 2_500_000_000_000_000_000);
    assert_eq!(dec(1).checked_div_uint(0), Err(Error::DivisionByZero));
}

#[test]
fn mul_uint_truncates() {
    let half = Decimal { atoms: DECIMAL_FRACTIONAL / 2 };
    assert_eq!(half.mul_uint(101).unwrap(), 50);
    assert_eq!(Decimal { atoms: u128::MAX }.mul_uint(u128::MAX), Err(Error::ArithmeticError));
}

#[test]
fn reverse_decimal_reciprocal() {
    assert_eq!(reverse_decimal(dec(2)).unwrap().atoms, DECIMAL_FRACTIONAL / 2);
    assert_eq!(reverse_decimal(dec(1)).unwrap(), dec(1));
    assert_eq!(reverse_decimal(Decimal { atoms: 0 }), Err(Error::DivisionByZero));
}

#[test]
fn free_function_wrappers_match_methods() {
    assert_eq!(decimal_subtraction(dec(5), dec(2)).unwrap(), dec(3));
    assert_eq!(decimal_subtraction(dec(2), dec(5)), Err(Error::ArithmeticError));
    assert_eq!(decimal_division(dec(6), dec(3)).unwrap(), dec(2));
    assert_eq!(decimal_division(dec(6), Decimal { atoms: 0 }), Err(Error::DivisionByZero));
}

#[test]
fn wide_products_succeed_when_the_result_fits() {
    // 10^9 * 10^9 = 10^18: the atom product is far beyond u128, the result
    // is not.
    let a = dec(1_000_000_000);
    assert_eq!(a.checked_mul(a).unwrap(), dec(1_000_000_000_000_000_000));
    // 1.5 * 10^30, likewise.
    let one_and_half = Decimal { atoms: 3 * DECIMAL_FRACTIONAL / 2 };
    assert_eq!(
        one_and_half.mul_uint(1_000_000_000_000_000_000_000_000_000_000).unwrap(),
        1_500_000_000_000_000_000_000_000_000_000
    );
}

#[test]
fn wide_quotients_succeed_when_the_result_fits() {
    // 10^30 / 10^12 scales through a 188-bit intermediate.
    let d = Decimal::from_ratio(1_000_000_000_000_000_000_000_000_000_000, 1_000_000_000_000)
        .unwrap();
    assert_eq!(d, dec(1_000_000_000_000_000_000));
    // A large decimal divided by a decimal, same shape.
    let big = dec(1_000_000_000);
    assert_eq!(big.checked_div(dec(2)).unwrap(), dec(500_000_000));
}
