use fvm::econ::{AmountOutOfRange, BigAmount, TokenAmount};

#[test]
fn halves_of_an_amount() {
    assert_eq!(TokenAmount::from(0u128), TokenAmount { lo: 0, hi: 0 });
    assert_eq!(TokenAmount::from(1u128), TokenAmount { lo: 1, hi: 0 });
    assert_eq!(TokenAmount::from(u64::MAX as u128), TokenAmount { lo: u64::MAX, hi: 0 });
    assert_eq!(TokenAmount::from(1u128 << 64), TokenAmount { lo: 0, hi: 1 });
    assert_eq!(TokenAmount::from((7u128 << 64) | 9), TokenAmount { lo: 9, hi: 7 });
    assert_eq!(TokenAmount::from(u128::MAX), TokenAmount { lo: u64::MAX, hi: u64::MAX });
}

#[test]
fn amount_of_two_halves() {
    assert_eq!(u128::from(TokenAmount { lo: 0, hi: 0 }), 0);
    assert_eq!(u128::from(TokenAmount { lo: 9, hi: 7 }), (7u128 << 64) | 9);
    assert_eq!(u128::from(TokenAmount { lo: u64::MAX, hi: u64::MAX }), u128::MAX);
}

#[test]
fn split_and_join_round_trip() {
    for v in [0u128, 1, 1000, u64::MAX as u128, (u64::MAX as u128) + 1, 2_000_000_000u128 * 1_000_000_000_000_000_000, u128::MAX - 1, u128::MAX] {
        assert_eq!(u128::from(TokenAmount::from(v)), v);
    }
}

#[test]
fn amounts_agree_with_big_integers() {
    for v in [0u128, 5, 1u128 << 64, (3u128 << 64) + 2, u128::MAX] {
        let t = TokenAmount::from(v);
        let big = (num_bigint::BigInt::from(t.hi) << 64) | num_bigint::BigInt::from(t.lo);
        assert_eq!(big, num_bigint::BigInt::from(v));
    }
}

fn amount(negative: bool, digits: &[u64]) -> Result<TokenAmount, AmountOutOfRange> {
    TokenAmount::try_from(BigAmount { negative, digits })
}

#[test]
fn amounts_from_digits() {
    assert_eq!(amount(false, &[]), Ok(TokenAmount { lo: 0, hi: 0 }));
    assert_eq!(amount(false, &[5]), Ok(TokenAmount { lo: 5, hi: 0 }));
    assert_eq!(amount(false, &[5, 7]), Ok(TokenAmount { lo: 5, hi: 7 }));
    assert_eq!(amount(false, &[u64::MAX, u64::MAX]), Ok(TokenAmount { lo: u64::MAX, hi: u64::MAX }));
    // leading zero digits do not count
    assert_eq!(amount(false, &[5, 7, 0, 0]), Ok(TokenAmount { lo: 5, hi: 7 }));
    // 2^128 and beyond
    assert_eq!(amount(false, &[0, 0, 1]), Err(AmountOutOfRange));
    assert_eq!(amount(false, &[5, 7, 0, 1]), Err(AmountOutOfRange));
    // zero has no sign; any other negative number is out of range
    assert_eq!(amount(true, &[]), Ok(TokenAmount { lo: 0, hi: 0 }));
    assert_eq!(amount(true, &[0, 0, 0]), Ok(TokenAmount { lo: 0, hi: 0 }));
    assert_eq!(amount(true, &[1]), Err(AmountOutOfRange));
    assert_eq!(amount(true, &[0, 1]), Err(AmountOutOfRange));
    assert_eq!(amount(true, &[0, 0, 1]), Err(AmountOutOfRange));
}

#[test]
fn digits_agree_with_big_integers() {
    let two = num_bigint::BigInt::from(2);
    for big in [
        num_bigint::BigInt::from(0),
        num_bigint::BigInt::from(u128::MAX),
        num_bigint::BigInt::from(u128::MAX) + 1,
        two.pow(64),
        two.pow(200),
        num_bigint::BigInt::from(-1),
        -two.pow(130),
    ] {
        let (sign, digits) = big.to_u64_digits();
        let ours = amount(sign == num_bigint::Sign::Minus, &digits);
        match u128::try_from(&big) {
            Ok(v) => assert_eq!(ours, Ok(TokenAmount::from(v))),
            Err(_) => assert_eq!(ours, Err(AmountOutOfRange)),
        }
    }
}
