use field_exts::{OpsIdentity, ToBigEndian, ToLittleEndian, Word, U256};
use halo2curves::bn256::Fr;
use halo2curves::ff::PrimeField;

fn sample_words() -> Vec<U256> {
    vec![
        U256::zero(),
        U256::one(),
        U256::from(256u64),
        U256::from(u64::MAX),
        U256::from(u128::MAX),
        U256::MAX,
        U256([
            0x0807_0605_0403_0201,
            0x100f_0e0d_0c0b_0a09,
            0x1817_1615_1413_1211,
            0x201f_1e1d_1c1b_1a19,
        ]),
        U256::from_dec_str("1157920892373161954235709850086879078532699846656405640394")
            .unwrap(),
    ]
}

#[test]
fn big_endian_round_trip() {
    for w in sample_words() {
        assert_eq!(U256::from_big_endian(&w.to_be_bytes()), w);
    }
}

#[test]
fn little_endian_round_trip() {
    for w in sample_words() {
        assert_eq!(U256::from_little_endian(&w.to_le_bytes()), w);
    }
}

#[test]
fn each_encoding_is_the_other_reversed() {
    for w in sample_words() {
        let mut be = w.to_be_bytes();
        be.reverse();
        assert_eq!(be, w.to_le_bytes());
        let mut le = w.to_le_bytes();
        le.reverse();
        assert_eq!(le, w.to_be_bytes());
    }
}

#[test]
fn encodings_of_256() {
    let w = U256::from(256u64);
    let mut be = [0u8; 32];
    be[30] = 1;
    assert_eq!(w.to_be_bytes(), be);
    let mut le = [0u8; 32];
    le[1] = 1;
    assert_eq!(w.to_le_bytes(), le);
}

#[test]
fn encodings_of_zero_and_of_the_largest_word() {
    assert_eq!(U256::zero().to_be_bytes(), [0u8; 32]);
    assert_eq!(U256::zero().to_le_bytes(), [0u8; 32]);
    assert_eq!(U256::MAX.to_be_bytes(), [0xffu8; 32]);
    assert_eq!(U256::MAX.to_le_bytes(), [0xffu8; 32]);
}

#[test]
fn encodings_of_a_word_with_every_byte_different() {
    let w = U256([
        0x0807_0605_0403_0201,
        0x100f_0e0d_0c0b_0a09,
        0x1817_1615_1413_1211,
        0x201f_1e1d_1c1b_1a19,
    ]);
    let mut le = [0u8; 32];
    let mut be = [0u8; 32];
    for i in 0..32 {
        le[i] = (i + 1) as u8;
        be[i] = (32 - i) as u8;
    }
    assert_eq!(w.to_le_bytes(), le);
    assert_eq!(w.to_be_bytes(), be);
}

#[test]
fn encodings_place_each_limb() {
    let w = U256([1, 2, 3, 4]);
    let le = w.to_le_bytes();
    assert_eq!((le[0], le[8], le[16], le[24]), (1, 2, 3, 4));
    let be = w.to_be_bytes();
    assert_eq!((be[31], be[23], be[15], be[7]), (1, 2, 3, 4));
    assert_eq!(le.iter().filter(|b| **b != 0).count(), 4);
    assert_eq!(be.iter().filter(|b| **b != 0).count(), 4);
}

#[test]
fn encodings_of_a_word_are_not_reduced_by_any_modulus() {
    // The modulus of the BN254 scalar field, which no field element can hold.
    let modulus = U256::from_str_radix(
        "30644e72e131a029b85045b68181585d2833e84879b9709143e1f593f0000001",
        16,
    )
    .unwrap();
    let be = modulus.to_be_bytes();
    assert_eq!(be[0], 0x30);
    assert_eq!(be[31], 0x01);
    assert!(bool::from(Fr::from_repr(modulus.to_le_bytes()).is_none()));
    let largest = modulus - U256::one();
    assert_eq!(Fr::from_repr(largest.to_le_bytes()).unwrap(), -Fr::one());
}

#[test]
fn field_one_as_a_word() {
    let one = <Fr as OpsIdentity>::one();
    let word: Word = U256::from_little_endian(&one.to_repr());
    assert_eq!(word, U256::one());
    let be = word.to_be_bytes();
    assert_eq!(be[31], 0x01);
    assert!(be[..31].iter().all(|b| *b == 0));
    let le = word.to_le_bytes();
    assert_eq!(le[0], 0x01);
    assert!(le[1..].iter().all(|b| *b == 0));
}

#[test]
fn little_endian_bytes_of_a_word_are_a_field_elements_representation() {
    let x = Fr::from_u128(0x0123_4567_89ab_cdef_fedc_ba98_7654_3210);
    let word: Word = U256::from_little_endian(&x.to_repr());
    assert_eq!(word, U256::from(0x0123_4567_89ab_cdef_fedc_ba98_7654_3210u128));
    assert_eq!(word.to_le_bytes(), x.to_repr());
    assert_eq!(Fr::from_repr(word.to_le_bytes()).unwrap(), x);
}
