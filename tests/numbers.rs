use tezos_core::coder::{IntegerBytesCoder, NaturalBytesCoder};
use tezos_core::consumable::ConsumableBytes;
use tezos_core::error::Error;
use tezos_core::integer::Int;
use tezos_core::natural::Nat;

fn test_values() -> Vec<(Nat, Vec<u8>)> {
    vec![
        (Nat::from_u64(0), vec![0]),
        (Nat::from_u64(1), vec![1]),
        (Nat::from_u64(10), vec![10]),
        (Nat::from_u64(42), vec![42]),
        (Nat::from_u64(64), vec![64]),
        (Nat::from_u64(127), vec![127]),
        (Nat::from_u64(128), vec![128, 1]),
        (Nat::from_u64(18756523543673), vec![249, 152, 177, 191, 241, 161, 4]),
        (
            Nat::from_u64(6852352674543413768),
            vec![136, 212, 238, 142, 188, 206, 156, 140, 95],
        ),
        (
            Nat::from("54576326575686358562454576456764").unwrap(),
            vec![
                188, 200, 169, 161, 243, 209, 156, 162, 224, 219, 253, 249, 153, 155, 172, 1,
            ],
        ),
        (
            Nat::from("41547452475632687683489977342365486797893454355756867843").unwrap(),
            vec![
                131, 194, 247, 231, 163, 173, 225, 186, 194, 204, 202, 215, 213, 207, 147, 226,
                197, 135, 146, 224, 236, 154, 165, 200, 198, 227, 6,
            ],
        ),
    ]
}

#[test]
fn test_encode() {
    for (value, bytes) in test_values() {
        let encoded = NaturalBytesCoder::encode(&value).unwrap();
        assert_eq!(encoded, bytes);
    }
}

#[test]
fn test_decode() {
    for (value, bytes) in test_values() {
        let decoded = NaturalBytesCoder::decode(&bytes).unwrap();
        assert_eq!(value, decoded);
    }
}

#[test]
fn test_valid_naturals() {
    let values = vec![
        "0",
        "1",
        "127",
        "32767",
        "2147483647",
        "9223372036854775807",
        "9223372036854775808",
    ];
    for item in values {
        assert!(Nat::from(item).is_ok());
    }
}

#[test]
fn test_invalid_naturals() {
    let values = vec![
        "",
        "abc",
        "1.",
        "1.0",
        " 10",
        " -10",
        "- 10",
        "10%",
        "-9223372036854775809",
        "-9223372036854775808",
        "-2147483648",
        "-32768",
        "-128",
        "-1",
    ];
    for item in values {
        assert!(Nat::from(item).is_err());
    }
}

#[test]
fn test_valid_integers() {
    let values = vec![
        "-9223372036854775809",
        "-9223372036854775808",
        "-2147483648",
        "-32768",
        "-128",
        "-1",
        "0",
        "1",
        "127",
        "32767",
        "2147483647",
        "9223372036854775807",
        "9223372036854775808",
    ];
    for item in values {
        assert!(Int::from(item).is_ok());
    }
}

#[test]
fn test_invalid_integers() {
    let values = vec!["", "abc", "1.", "1.0", " 10", " -10", "- 10", "10%"];
    for item in values {
        assert!(Int::from(item).is_err());
    }
}

#[test]
fn nat_literal_vectors() {
    assert_eq!(Nat::from_u64(0).to_bytes().unwrap(), vec![0x00]);
    assert_eq!(Nat::from_u64(1).to_bytes().unwrap(), vec![0x01]);
    assert_eq!(Nat::from_u64(127).to_bytes().unwrap(), vec![0x7F]);
    assert_eq!(Nat::from_u64(128).to_bytes().unwrap(), vec![0x80, 0x01]);
    assert_eq!(
        Nat::from_u64(18756523543673).to_bytes().unwrap(),
        vec![0xF9, 0x98, 0xB1, 0xBF, 0xF1, 0xA1, 0x04]
    );
}

#[test]
fn nat_round_trip_through_text_and_bytes() {
    let text = "41547452475632687683489977342365486797893454355756867843";
    let n = Nat::from(text).unwrap();
    assert_eq!(n.to_string(), text);
    let bytes = n.to_bytes().unwrap();
    assert_eq!(Nat::from_bytes(&bytes).unwrap(), n);
    assert_eq!(Nat::from("0").unwrap().to_string(), "0");
    assert_eq!(Nat::from("000123").unwrap().to_string(), "123");
}

#[test]
fn nat_decode_leaves_trailing_bytes() {
    let bytes = vec![0x80, 0x01, 0xAA, 0xBB];
    let mut cs = ConsumableBytes::new(&bytes);
    let n = Nat::from_consumable_bytes(&mut cs).unwrap();
    assert_eq!(n.to_u64(), Some(128));
    assert_eq!(cs.consume_first_n(2).unwrap(), vec![0xAA, 0xBB]);
    assert!(cs.is_empty());
}

#[test]
fn nat_truncated_input_fails() {
    assert_eq!(Nat::from_bytes(&[0xF9, 0x98, 0xB1]), Err(Error::InvalidNaturalBytes));
    assert_eq!(Nat::from_bytes(&[]), Err(Error::InvalidNaturalBytes));
    let full = Nat::from_u64(18756523543673).to_bytes().unwrap();
    assert_eq!(
        Nat::from_bytes(&full[..full.len() - 1]),
        Err(Error::InvalidNaturalBytes)
    );
}

#[test]
fn nat_invalid_strings_report_error() {
    for item in ["", "abc", "1.", " 10", "-10", "10%"] {
        assert_eq!(Nat::from(item), Err(Error::InvalidIntegerString));
        assert!(!Nat::is_valid(item));
    }
    assert!(Nat::is_valid("10"));
}

#[test]
fn nat_fixed_width_conversions() {
    let big = Nat::from("18446744073709551616").unwrap();
    assert_eq!(big.to_u64(), None);
    assert_eq!(big.to_u128(), Some(18446744073709551616u128));
    assert_eq!(Nat::from("18446744073709551615").unwrap().to_u64(), Some(u64::MAX));
    assert_eq!(Nat::from("9223372036854775808").unwrap().to_i64(), None);
    assert_eq!(Nat::from("9223372036854775807").unwrap().to_i64(), Some(i64::MAX));
    assert_eq!(Nat::from_u128(u128::MAX).to_i128(), None);
    assert_eq!(Nat::from_u128(u128::MAX).to_string(), u128::MAX.to_string());
}

#[test]
fn int_literal_vectors() {
    assert_eq!(Int::from_i64(0).to_bytes().unwrap(), vec![0x00]);
    assert_eq!(Int::from_i64(1).to_bytes().unwrap(), vec![0x01]);
    assert_eq!(Int::from_i64(-1).to_bytes().unwrap(), vec![0x41]);
    assert_eq!(Int::from_i64(63).to_bytes().unwrap(), vec![0x3F]);
    assert_eq!(Int::from_i64(64).to_bytes().unwrap(), vec![0x80, 0x01]);
    assert_eq!(Int::from_i64(-64).to_bytes().unwrap(), vec![0xC0, 0x01]);
}

#[test]
fn int_sign_bit_only_difference() {
    for m in [1i64, 63, 64, 1000, 18756523543673] {
        let pos = Int::from_i64(m).to_bytes().unwrap();
        let neg = Int::from_i64(-m).to_bytes().unwrap();
        assert_eq!(pos.len(), neg.len());
        assert_eq!(pos[0] & 0x40, 0);
        assert_eq!(neg[0], pos[0] | 0x40);
        assert_eq!(pos[1..], neg[1..]);
    }
    assert_eq!(Int::from("-0").unwrap().to_bytes().unwrap(), vec![0x00]);
}

#[test]
fn int_round_trips() {
    for text in ["-9223372036854775809", "-64", "-1", "0", "1", "63", "64", "9223372036854775808"] {
        let i = Int::from(text).unwrap();
        assert_eq!(i.to_string(), text);
        let bytes = i.to_bytes().unwrap();
        assert_eq!(IntegerBytesCoder::decode(&bytes).unwrap(), i);
        assert_eq!(Int::from_bytes(&bytes).unwrap(), i);
    }
    assert_eq!(Int::from("-0").unwrap().to_string(), "0");
}

#[test]
fn int_decode_errors_and_trailing_bytes() {
    assert_eq!(Int::from_bytes(&[]), Err(Error::InvalidIntegerBytes));
    assert_eq!(Int::from_bytes(&[0xC0]), Err(Error::InvalidIntegerBytes));
    let bytes = vec![0xC0, 0x01, 0x05];
    let mut cs = ConsumableBytes::new(&bytes);
    let i = Int::from_consumable_bytes(&mut cs).unwrap();
    assert_eq!(i.to_i64(), Some(-64));
    assert_eq!(cs.consume_first().unwrap(), 0x05);
    assert_eq!(cs.consume_first(), Err(Error::InvalidBytes));
}

#[test]
fn int_conversions() {
    assert_eq!(Int::from("-9223372036854775808").unwrap().to_i64(), Some(i64::MIN));
    assert_eq!(Int::from("-9223372036854775809").unwrap().to_i64(), None);
    assert_eq!(Int::from_i128(i128::MIN).to_i128(), Some(i128::MIN));
    assert_eq!(Int::from_i128(i128::MIN).to_string(), i128::MIN.to_string());
    assert_eq!(Int::from_i64(-5).to_u64(), None);
    assert_eq!(Int::from_i64(-5).to_nat(), Err(Error::InvalidNaturalConversion));
    assert_eq!(Int::from_i64(5).to_nat().unwrap(), Nat::from_u64(5));
    assert_eq!(Int::from_nat(&Nat::from_u64(7)).to_i64(), Some(7));
    assert_eq!(Int::from("1.0"), Err(Error::InvalidIntegerString));
    assert!(Int::is_valid("-12"));
    assert!(!Int::is_valid("--12"));
}

#[test]
fn consumable_bytes_take_exact_counts() {
    let bytes = vec![1u8, 2, 3];
    let mut cs = ConsumableBytes::new(&bytes);
    assert_eq!(cs.consume_first_n(4), Err(Error::InvalidBytes));
    assert_eq!(cs.consume_first_n(2).unwrap(), vec![1, 2]);
    assert!(!cs.is_empty());
    assert_eq!(cs.consume_first().unwrap(), 3);
    assert!(cs.is_empty());
}
