use fvm_shared::bigint::Sign;
use state_migration::econ::TokenAmount;

#[test]
fn amount_from_atto() {
    let zero = TokenAmount::from_atto(0);
    assert!(!zero.is_negative());
    assert_eq!(zero.magnitude().len(), 0);
    let one = TokenAmount::from_atto(1);
    assert_eq!(one.magnitude(), &[1u8][..]);
    let more = TokenAmount::from_atto(0x0102_0304);
    assert_eq!(more.magnitude(), &[4u8, 3, 2, 1][..]);
    assert_eq!(TokenAmount::from_atto(u64::MAX).magnitude(), &[0xffu8; 8][..]);
}

#[test]
fn amount_from_parts_is_held_in_one_way() {
    assert_eq!(TokenAmount::from_parts(Sign::Plus, vec![5, 0, 0]), TokenAmount::from_atto(5));
    assert_eq!(TokenAmount::from_parts(Sign::Plus, vec![0]), TokenAmount::from_atto(0));
    assert_eq!(TokenAmount::from_parts(Sign::Minus, vec![0, 0]), TokenAmount::from_atto(0));
    assert_eq!(TokenAmount::from_parts(Sign::NoSign, vec![9]), TokenAmount::from_atto(0));
    assert_eq!(TokenAmount::from_parts(Sign::Plus, vec![]), TokenAmount::from_atto(0));
}

#[test]
fn amount_sign() {
    assert!(TokenAmount::from_parts(Sign::Minus, vec![1]).is_negative());
    assert!(!TokenAmount::from_parts(Sign::Plus, vec![1]).is_negative());
    assert!(!TokenAmount::from_parts(Sign::Minus, vec![0]).is_negative());
    assert_ne!(
        TokenAmount::from_parts(Sign::Minus, vec![1]),
        TokenAmount::from_parts(Sign::Plus, vec![1])
    );
}

#[test]
fn amount_times() {
    assert_eq!(TokenAmount::from_atto(6).times(7), TokenAmount::from_atto(42));
    assert_eq!(TokenAmount::from_atto(6).times(0), TokenAmount::from_atto(0));
    assert_eq!(TokenAmount::from_atto(0).times(9), TokenAmount::from_atto(0));
    assert_eq!(
        TokenAmount::from_parts(Sign::Minus, vec![3]).times(7),
        TokenAmount::from_parts(Sign::Minus, vec![21])
    );
}

#[test]
fn amount_times_beyond_sixty_four_bits() {
    let product = TokenAmount::from_atto(u64::MAX).times(u64::MAX);
    assert_eq!(
        product.magnitude(),
        &[1u8, 0, 0, 0, 0, 0, 0, 0, 254, 255, 255, 255, 255, 255, 255, 255][..]
    );
    assert!(!product.is_negative());
}

#[test]
fn amount_plus() {
    assert_eq!(
        TokenAmount::from_atto(40).plus(&TokenAmount::from_atto(2)),
        TokenAmount::from_atto(42)
    );
    assert_eq!(
        TokenAmount::from_atto(u64::MAX).plus(&TokenAmount::from_atto(1)).magnitude(),
        &[0u8, 0, 0, 0, 0, 0, 0, 0, 1][..]
    );
    let minus_five = TokenAmount::from_parts(Sign::Minus, vec![5]);
    assert_eq!(minus_five.plus(&TokenAmount::from_atto(5)), TokenAmount::from_atto(0));
    assert_eq!(
        minus_five.plus(&TokenAmount::from_atto(2)),
        TokenAmount::from_parts(Sign::Minus, vec![3])
    );
}

#[test]
fn amount_clone_is_equal() {
    let amount = TokenAmount::from_parts(Sign::Minus, vec![1, 2, 3]);
    assert_eq!(amount.clone(), amount);
}
