use halo2curves_axiom::bn256::Fr;
use zkevm_init_state::encoded::{combine, rlc_encode, split, split_be_bytes, EncodedValue};
use zkevm_init_state::field::Fe;
use zkevm_init_state::word::{decode_be, encode_be, Address, Word256};

const MODULUS: [u64; 4] = [
    0x43e1f593f0000001,
    0x2833e84879b97091,
    0xb85045b68181585d,
    0x30644e72e131a029,
];

fn fe(limbs: [u64; 4]) -> Fe {
    Fe::from_limbs(limbs).unwrap()
}

#[test]
fn from_limbs_accepts_exactly_the_numbers_below_the_modulus() {
    assert!(Fe::from_limbs(MODULUS).is_none());
    let below = [MODULUS[0] - 1, MODULUS[1], MODULUS[2], MODULUS[3]];
    assert_eq!(Fe::from_limbs(below).unwrap().to_limbs(), below);
    assert!(Fe::from_limbs([0, 0, 0, MODULUS[3] + 1]).is_none());
    assert!(Fe::from_limbs([u64::MAX, u64::MAX, u64::MAX, u64::MAX]).is_none());
    assert!(Fe::from_limbs([u64::MAX, u64::MAX, u64::MAX, MODULUS[3] - 1]).is_some());
    assert!(Fe::from_limbs([0, MODULUS[1] + 1, MODULUS[2], MODULUS[3]]).is_none());
    assert!(Fe::from_limbs([u64::MAX, MODULUS[1] - 1, MODULUS[2], MODULUS[3]]).is_some());
    assert!(Fe::from_limbs([0, 0, MODULUS[2] + 1, MODULUS[3]]).is_none());
}

#[test]
fn small_constructors_spell_their_argument() {
    assert_eq!(Fe::zero().to_limbs(), [0, 0, 0, 0]);
    assert_eq!(Fe::from_u64(7).to_limbs(), [7, 0, 0, 0]);
    assert_eq!(Fe::from_u64(u64::MAX).to_limbs(), [u64::MAX, 0, 0, 0]);
    assert_eq!(
        Fe::from_u128(0x0123_4567_89ab_cdef_0011_2233_4455_6677).to_limbs(),
        [0x0011_2233_4455_6677, 0x0123_4567_89ab_cdef, 0, 0]
    );
    assert_eq!(Fe::from_u128(u128::MAX).to_limbs(), [u64::MAX, u64::MAX, 0, 0]);
    assert_eq!(
        Fe::from_u160(0xdead_beef, 0x0123_4567_89ab_cdef_0011_2233_4455_6677).to_limbs(),
        [0x0011_2233_4455_6677, 0x0123_4567_89ab_cdef, 0xdead_beef, 0]
    );
}

#[test]
fn to_u128_is_there_only_below_two_to_the_128() {
    assert_eq!(Fe::from_u128(u128::MAX).to_u128(), Some(u128::MAX));
    assert_eq!(Fe::from_u64(0).to_u128(), Some(0));
    assert_eq!(fe([0, 0, 1, 0]).to_u128(), None);
    assert_eq!(fe([5, 0, 0, 1]).to_u128(), None);
    assert_eq!(fe([9, 4, 0, 0]).to_u128(), Some((4u128 << 64) + 9));
}

#[test]
fn split_cuts_at_the_128_bit_boundary() {
    let v = Word256 { hi: 0x0102, lo: u128::MAX };
    let e = split(&v);
    assert_eq!(e.hi.to_limbs(), [0x0102, 0, 0, 0]);
    assert_eq!(e.lo.to_limbs(), [u64::MAX, u64::MAX, 0, 0]);
    assert!(e.rlc.is_none());
}

#[test]
fn combine_undoes_split() {
    let words = [
        Word256 { hi: 0, lo: 0 },
        Word256 { hi: 0, lo: 5 },
        Word256 { hi: 1, lo: 0 },
        Word256 { hi: u128::MAX, lo: u128::MAX },
        Word256 {
            hi: 0x0102_0304_0506_0708_090a_0b0c_0d0e_0f10,
            lo: 0x1112_1314_1516_1718_191a_1b1c_1d1e_1f20,
        },
    ];
    for v in words {
        let e = split(&v);
        assert_eq!(combine(e.hi, e.lo), Some(v));
        assert_eq!(e.value(), Some(v));
    }
    let wide = EncodedValue { hi: fe([0, 0, 1, 0]), lo: Fe::zero(), rlc: None };
    assert_eq!(wide.value(), None);
}

#[test]
fn split_undoes_combine() {
    let pairs: [(u128, u128); 4] = [(0, 0), (1, 2), (u128::MAX, 0), (77, u128::MAX)];
    for (hi, lo) in pairs {
        let w = combine(Fe::from_u128(hi), Fe::from_u128(lo)).unwrap();
        let e = split(&w);
        assert_eq!(e.hi, Fe::from_u128(hi));
        assert_eq!(e.lo, Fe::from_u128(lo));
    }
}

#[test]
fn combine_refuses_a_half_of_more_than_128_bits() {
    let wide = fe([0, 0, 1, 0]);
    let narrow = Fe::from_u64(3);
    assert_eq!(combine(wide, narrow), None);
    assert_eq!(combine(narrow, wide), None);
    assert_eq!(combine(wide, wide), None);
    assert_eq!(combine(narrow, narrow), Some(Word256 { hi: 3, lo: 3 }));
}

#[test]
fn rlc_weights_each_byte_by_a_power_of_the_challenge() {
    let r = rlc_encode(&[1, 2, 3], Fe::from_u64(10));
    assert_eq!(r.to_limbs(), [321, 0, 0, 0]);
}

#[test]
fn rlc_of_no_bytes_is_zero() {
    assert_eq!(rlc_encode(&[], Fe::from_u64(10)), Fe::zero());
}

#[test]
fn rlc_of_one_byte_is_the_byte() {
    assert_eq!(rlc_encode(&[200], Fe::from_u64(12345)), Fe::from_u64(200));
}

#[test]
fn rlc_under_challenge_zero_is_the_first_byte() {
    assert_eq!(rlc_encode(&[9, 8, 7], Fe::zero()), Fe::from_u64(9));
}

#[test]
fn rlc_is_reduced_by_the_modulus() {
    let minus_one = fe([MODULUS[0] - 1, MODULUS[1], MODULUS[2], MODULUS[3]]);
    assert_eq!(rlc_encode(&[1, 2, 3], minus_one), Fe::from_u64(2));
    assert_eq!(rlc_encode(&[0, 1], minus_one), minus_one);
    assert_eq!(rlc_encode(&[255, 255], minus_one), Fe::zero());
    assert_eq!(rlc_encode(&[0, 0, 1], minus_one), Fe::from_u64(1));
}

#[test]
fn rlc_of_a_long_string_under_a_wide_challenge() {
    let challenge = fe([0x0123456789abcdef, 0x0123456789abcdef, 0x0123456789abcdef, 0]);
    let r = rlc_encode(&[0xff; 32], challenge);
    assert_eq!(
        r.to_limbs(),
        [0xed91d2d8ed3e28ff, 0x4a354b94a81999b0, 0xbb864359941387d6, 0x0e18e353bb8bb85f]
    );
}

#[test]
fn rlc_agrees_with_the_field_of_the_curve_library() {
    let limbs = [0x1111, 0x2222, 0x3333, 0x0444];
    let bytes: Vec<u8> = (0u8..100).collect();
    let c = Fr::from_raw(limbs);
    let mut acc = Fr::from(0u64);
    for b in bytes.iter().rev() {
        acc = acc * c + Fr::from(*b as u64);
    }
    let expected: [u64; 4] = acc.into();
    assert_eq!(rlc_encode(&bytes, fe(limbs)).to_limbs(), expected);
}

#[test]
fn with_challenge_combines_the_big_endian_bytes_of_the_word() {
    let e = EncodedValue::with_challenge(&Word256 { hi: 0, lo: 5 }, Fe::from_u64(0x100));
    assert_eq!(e.hi, Fe::zero());
    assert_eq!(e.lo, Fe::from_u64(5));
    assert_eq!(e.rlc.unwrap().to_limbs(), [0, 0, 0, 0x0500000000000000]);

    let e = EncodedValue::with_challenge(&Word256 { hi: 1, lo: 2 }, Fe::from_u64(3));
    assert_eq!(e.rlc.unwrap().to_limbs(), [1235346806916801, 0, 0, 0]);

    let w = Word256 {
        hi: 0x0102_0304_0506_0708_090a_0b0c_0d0e_0f10,
        lo: 0x1112_1314_1516_1718_191a_1b1c_1d1e_1f20,
    };
    let e = EncodedValue::with_challenge(&w, Fe::from_u64(2));
    assert_eq!(e.rlc.unwrap().to_limbs(), [133143986177, 0, 0, 0]);
}

#[test]
fn word_bytes_are_big_endian() {
    let w = Word256 {
        hi: 0x0102_0304_0506_0708_090a_0b0c_0d0e_0f10,
        lo: 0x1112_1314_1516_1718_191a_1b1c_1d1e_1f20,
    };
    let expected: Vec<u8> = (1u8..=32).collect();
    assert_eq!(w.to_be_bytes(), expected);
    assert_eq!(Word256::from_be_bytes(&expected), Some(w));
    assert_eq!(Word256::from_u64(5).to_be_bytes()[31], 5);
    assert_eq!(Word256::from_u64(5).to_be_bytes()[..31], [0u8; 31]);
    assert_eq!(Word256::zero().to_be_bytes(), vec![0u8; 32]);
    assert_eq!(Word256::from_u128(1 << 127).to_be_bytes()[16], 0x80);
}

#[test]
fn a_byte_string_of_more_than_256_bits_is_no_word() {
    let mut bytes = vec![0u8; 33];
    bytes[0] = 1;
    assert_eq!(Word256::from_be_bytes(&bytes), None);
    assert_eq!(decode_be(&bytes), None);
    bytes[0] = 0;
    bytes[1] = 0xff;
    assert_eq!(Word256::from_be_bytes(&bytes), Some(Word256 { hi: 0xff << 120, lo: 0 }));
    assert_eq!(Word256::from_be_bytes(&[]), Some(Word256::zero()));
    assert_eq!(Word256::from_be_bytes(&[1, 0]), Some(Word256::from_u64(256)));
    let long = vec![0xffu8; 40];
    assert_eq!(Word256::from_be_bytes(&long), None);
    let mut padded = vec![0u8; 8];
    padded.extend_from_slice(&[0xff; 32]);
    assert_eq!(
        Word256::from_be_bytes(&padded),
        Some(Word256 { hi: u128::MAX, lo: u128::MAX })
    );
}

#[test]
fn encode_be_keeps_the_lowest_digits() {
    assert_eq!(encode_be(0x0102_0304, 4), vec![1, 2, 3, 4]);
    assert_eq!(encode_be(0x0102_0304, 2), vec![3, 4]);
    assert_eq!(encode_be(0x0102_0304, 6), vec![0, 0, 1, 2, 3, 4]);
    assert_eq!(encode_be(7, 0), Vec::<u8>::new());
    assert_eq!(encode_be(u128::MAX, 16), vec![0xff; 16]);
    let mut padded = vec![0u8; 4];
    padded.extend_from_slice(&[0xff; 16]);
    assert_eq!(encode_be(u128::MAX, 20), padded);
}

#[test]
fn an_address_is_a_word_below_two_to_the_160() {
    let a = Address { hi: 0xaaaa_aaaa, lo: 0xaaaa_aaaa_aaaa_aaaa_aaaa_aaaa_aaaa_aaaa };
    assert_eq!(a.to_be_bytes(), vec![0xaa; 20]);
    assert_eq!(Address::from_be_bytes(&[0xaa; 20]), Some(a));
    assert_eq!(Address::from_word(&a.to_word()), Some(a));
    assert_eq!(a.to_word(), Word256 { hi: 0xaaaa_aaaa, lo: a.lo });
    assert_eq!(Address::from_word(&Word256 { hi: 1 << 32, lo: 0 }), None);
    assert_eq!(
        Address::from_word(&Word256 { hi: u32::MAX as u128, lo: u128::MAX }),
        Some(Address { hi: u32::MAX, lo: u128::MAX })
    );
    assert_eq!(Address::from_be_bytes(&[1; 21]), None);
    assert_eq!(
        a.to_scalar().to_limbs(),
        [0xaaaa_aaaa_aaaa_aaaa, 0xaaaa_aaaa_aaaa_aaaa, 0xaaaa_aaaa, 0]
    );
}

#[test]
fn splitting_fails_only_on_more_than_256_bits() {
    let mut bytes = vec![0u8; 32];
    bytes[15] = 7;
    bytes[31] = 9;
    let e = split_be_bytes(&bytes).unwrap();
    assert_eq!(e.hi, Fe::from_u64(7));
    assert_eq!(e.lo, Fe::from_u64(9));
    assert!(e.rlc.is_none());
    let e = split_be_bytes(&[1, 0]).unwrap();
    assert_eq!((e.hi, e.lo), (Fe::zero(), Fe::from_u64(256)));
    let mut wide = vec![0u8; 33];
    wide[0] = 1;
    assert!(split_be_bytes(&wide).is_none());
}
