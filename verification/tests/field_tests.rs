use relayer::field::{DecimalError, Field};

const MAX_DEC: &str =
    "115792089237316195423570985008687907853269984665640564039457584007913129639935";
const LIMIT_DEC: &str =
    "115792089237316195423570985008687907853269984665640564039457584007913129639936";

#[test]
fn zero_and_small_values() {
    assert_eq!(Field::zero().limbs, [0, 0, 0, 0]);
    assert_eq!(Field::from_u64(7).limbs, [7, 0, 0, 0]);
    assert_eq!(Field::from_dec_str("0"), Ok(Field::zero()));
    assert_eq!(Field::from_dec_str("5"), Ok(Field::from_u64(5)));
    assert_eq!(Field::from_dec_str("007"), Ok(Field::from_u64(7)));
}

#[test]
fn empty_text_denotes_zero() {
    assert_eq!(Field::from_dec_str(""), Ok(Field::zero()));
}

#[test]
fn limbs_are_little_endian() {
    assert_eq!(
        Field::from_dec_str("18446744073709551616"),
        Ok(Field { limbs: [0, 1, 0, 0] })
    );
    assert_eq!(
        Field::from_dec_str("18446744073709551615"),
        Ok(Field { limbs: [u64::MAX, 0, 0, 0] })
    );
    assert_eq!(
        Field::from_dec_str("340282366920938463463374607431768211456"),
        Ok(Field { limbs: [0, 0, 1, 0] })
    );
    assert_eq!(
        Field::from_dec_str("340282366920938463463374607431768211461"),
        Ok(Field { limbs: [5, 0, 1, 0] })
    );
}

#[test]
fn largest_value_fits_and_next_does_not() {
    assert_eq!(Field::from_dec_str(MAX_DEC), Ok(Field { limbs: [u64::MAX; 4] }));
    assert_eq!(Field::from_dec_str(LIMIT_DEC), Err(DecimalError::InvalidLength));
}

#[test]
fn non_digits_are_refused() {
    assert_eq!(Field::from_dec_str("12a"), Err(DecimalError::InvalidCharacter));
    assert_eq!(Field::from_dec_str("+5"), Err(DecimalError::InvalidCharacter));
    assert_eq!(Field::from_dec_str("-5"), Err(DecimalError::InvalidCharacter));
    assert_eq!(Field::from_dec_str(" 5"), Err(DecimalError::InvalidCharacter));
    assert_eq!(Field::from_dec_str("5.50"), Err(DecimalError::InvalidCharacter));
    assert_eq!(Field::from_dec_str("0x10"), Err(DecimalError::InvalidCharacter));
    assert_eq!(Field::from_dec_str("\u{ff15}"), Err(DecimalError::InvalidCharacter));
}

#[test]
fn first_fault_from_the_left_decides() {
    let mut late_letter = String::from(LIMIT_DEC);
    late_letter.push('x');
    assert_eq!(Field::from_dec_str(&late_letter), Err(DecimalError::InvalidLength));
    let mut early_letter = String::from("x");
    early_letter.push_str(LIMIT_DEC);
    assert_eq!(Field::from_dec_str(&early_letter), Err(DecimalError::InvalidCharacter));
}

#[test]
fn order_goes_by_the_most_significant_limb() {
    let small = Field { limbs: [u64::MAX, u64::MAX, u64::MAX, 0] };
    let large = Field { limbs: [0, 0, 0, 1] };
    assert!(large.ge(&small));
    assert!(!small.ge(&large));
    assert!(small.ge(&small));
    let a = Field { limbs: [1, 2, 0, 0] };
    let b = Field { limbs: [2, 1, 0, 0] };
    assert!(a.ge(&b));
    assert!(!b.ge(&a));
    assert!(Field::from_u64(6).ge(&Field::from_u64(5)));
    assert!(!Field::from_u64(4).ge(&Field::from_u64(5)));
    assert!(Field::zero().ge(&Field::zero()));
}

#[test]
fn same_compares_all_limbs() {
    assert!(Field::from_u64(5).same(&Field::from_u64(5)));
    assert!(!Field::from_u64(5).same(&Field::from_u64(6)));
    assert!(!Field { limbs: [1, 0, 0, 0] }.same(&Field { limbs: [1, 0, 0, 1] }));
}
