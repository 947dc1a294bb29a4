use tezos_core::error::Error;
use tezos_core::integer::Int;
use tezos_core::natural::Nat;

fn natural(text: &str) -> Nat {
    Nat::from(text).unwrap()
}

fn integer(text: &str) -> Int {
    Int::from(text).unwrap()
}

#[test]
fn nat_arithmetic_is_exact() {
    let a = natural("340282366920938463463374607431768211455");
    let b = natural("1");
    assert_eq!(a.add(&b).to_string(), "340282366920938463463374607431768211456");
    assert_eq!(a.mul(&a).to_string(), "115792089237316195423570985008687907852589419931798687112530834793049593217025");
    assert_eq!(natural("100").sub(&natural("58")).unwrap(), natural("42"));
    assert_eq!(natural("58").sub(&natural("100")), Err(Error::InvalidNaturalConversion));
    assert_eq!(natural("100").div(&natural("7")).unwrap(), natural("14"));
    assert_eq!(natural("100").rem(&natural("7")).unwrap(), natural("2"));
    assert_eq!(natural("100").div(&natural("0")), Err(Error::InvalidConversion));
    assert_eq!(natural("100").rem(&natural("0")), Err(Error::InvalidConversion));
    assert!(natural("99").lt(&natural("100")));
    assert!(!natural("100").lt(&natural("100")));
    assert!(natural("0").is_zero());
}

#[test]
fn int_arithmetic_is_exact() {
    assert_eq!(integer("-5").add(&integer("3")).to_string(), "-2");
    assert_eq!(integer("5").add(&integer("-5")).to_string(), "0");
    assert_eq!(integer("-5").sub(&integer("-7")).to_string(), "2");
    assert_eq!(integer("-4").mul(&integer("6")).to_string(), "-24");
    assert_eq!(integer("-4").mul(&integer("0")).to_string(), "0");
    assert_eq!(integer("-7").div(&integer("2")).unwrap().to_string(), "-3");
    assert_eq!(integer("-7").rem(&integer("2")).unwrap().to_string(), "-1");
    assert_eq!(integer("7").rem(&integer("-2")).unwrap().to_string(), "1");
    assert_eq!(integer("7").div(&integer("0")), Err(Error::InvalidConversion));
    assert_eq!(integer("12").neg().to_string(), "-12");
    assert_eq!(
        integer("-99999999999999999999999999999999").add(&integer("1")).to_string(),
        "-99999999999999999999999999999998"
    );
}

#[test]
fn nat_bitwise_and_shifts() {
    assert_eq!(natural("12").bitand(&natural("10")), natural("8"));
    assert_eq!(natural("12").bitor(&natural("10")), natural("14"));
    assert_eq!(natural("12").bitxor(&natural("10")), natural("6"));
    assert_eq!(natural("3").shl(100).to_string(), "3802951800684688204490109616128");
    assert_eq!(natural("3802951800684688204490109616129").shr(100), natural("3"));
    assert_eq!(natural("5").shr(3), natural("0"));
}

#[test]
fn int_bitwise_and_shifts() {
    assert_eq!(integer("-12").bitand(&integer("10")).to_string(), "0");
    assert_eq!(integer("-12").bitand(&integer("-10")).to_string(), "-12");
    assert_eq!(integer("-12").bitor(&integer("10")).to_string(), "-2");
    assert_eq!(integer("-12").bitxor(&integer("10")).to_string(), "-2");
    assert_eq!(integer("-1").bitxor(&integer("5")).to_string(), "-6");
    assert_eq!(integer("-3").shl(2).to_string(), "-12");
    assert_eq!(integer("-7").shr(1).to_string(), "-4");
    assert_eq!(integer("7").shr(1).to_string(), "3");
}

#[test]
fn int_to_u32() {
    assert_eq!(integer("4294967295").to_u32(), Some(u32::MAX));
    assert_eq!(integer("4294967296").to_u32(), None);
    assert_eq!(integer("-1").to_u32(), None);
}
