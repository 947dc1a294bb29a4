use tezos_core::consumable::ConsumableBytes;
use tezos_core::encoded::{Address, ContractAddress, Curve, ImplicitAddress, PublicKey};
use tezos_core::error::Error;
use tezos_core::mutez::Mutez;
use tezos_core::natural::Nat;
use tezos_core::operation::{
    Delegation, OperationContent, OperationContentTag, Reveal, Transaction,
};
use tezos_core::parameters::{Entrypoint, Parameters};

fn address(curve: Curve, byte: u8) -> ImplicitAddress {
    ImplicitAddress::new(curve, vec![byte; 20]).unwrap()
}

fn sample_reveal() -> Reveal {
    Reveal::new(
        address(Curve::Ed25519, 1),
        Mutez::new(1266).unwrap(),
        Nat::from_u64(30),
        Nat::from_u64(10100),
        Nat::from_u64(0),
        PublicKey::new(Curve::Ed25519, vec![2u8; 32]).unwrap(),
    )
}

fn delegation(delegate: Option<ImplicitAddress>) -> Delegation {
    Delegation::new(
        address(Curve::Secp256K1, 3),
        Mutez::new(400).unwrap(),
        Nat::from_u64(7),
        Nat::from_u64(1000),
        Nat::from_u64(0),
        delegate,
    )
}

#[test]
fn reveal_forges_fields_in_order() {
    let op = OperationContent::Reveal(sample_reveal());
    let mut expected = vec![107u8, 0];
    expected.extend(vec![1u8; 20]);
    expected.extend([0xF2, 0x09, 30, 0xF4, 0x4E, 0]);
    expected.push(0);
    expected.extend(vec![2u8; 32]);
    assert_eq!(op.forge(), expected);
    assert_eq!(OperationContent::from_bytes(&expected).unwrap(), op);
}

#[test]
fn delegation_with_and_without_delegate() {
    let with = OperationContent::Delegation(delegation(Some(address(Curve::P256, 9))));
    let without = OperationContent::Delegation(delegation(None));
    let a = with.forge();
    let b = without.forge();
    assert!(a.len() > b.len());
    assert_eq!(*b.last().unwrap(), 0);
    match OperationContent::from_bytes(&a).unwrap() {
        OperationContent::Delegation(d) => assert!(d.delegate().is_some()),
        _ => panic!("expected a delegation"),
    }
    match OperationContent::from_bytes(&b).unwrap() {
        OperationContent::Delegation(d) => assert!(d.delegate().is_none()),
        _ => panic!("expected a delegation"),
    }
    assert_eq!(OperationContent::from_bytes(&a).unwrap(), with);
    assert_eq!(OperationContent::from_bytes(&b).unwrap(), without);
}

#[test]
fn unknown_tags_are_unsupported() {
    for tag in [0u8, 1, 106, 109, 111, 255] {
        let mut bytes = vec![tag];
        bytes.extend(vec![0u8; 40]);
        assert_eq!(OperationContent::from_bytes(&bytes), Err(Error::UnsupportedOperationKind));
    }
    assert_eq!(OperationContent::from_bytes(&[]), Err(Error::InvalidBytes));
}

#[test]
fn known_tags_dispatch_to_their_kind() {
    let r = OperationContent::Reveal(sample_reveal()).forge();
    assert_eq!(r[0], 107);
    assert_eq!(OperationContent::from_bytes(&r).unwrap().tag(), OperationContentTag::Reveal);
    let d = OperationContent::Delegation(delegation(None)).forge();
    assert_eq!(d[0], 110);
    assert_eq!(
        OperationContent::from_bytes(&d).unwrap().tag(),
        OperationContentTag::Delegation
    );
    assert_eq!(OperationContentTag::from_value(108), Some(OperationContentTag::Transaction));
    assert_eq!(OperationContentTag::Origination.value(), 109);
    assert_eq!(OperationContentTag::from_value(111), None);
}

#[test]
fn contents_read_one_after_another() {
    let first = OperationContent::Reveal(sample_reveal());
    let second = OperationContent::Delegation(delegation(Some(address(Curve::Ed25519, 4))));
    let mut bytes = first.forge();
    bytes.extend(second.forge());
    let mut cs = ConsumableBytes::new(&bytes);
    assert_eq!(OperationContent::from_consumable_bytes(&mut cs).unwrap(), first);
    assert_eq!(OperationContent::from_consumable_bytes(&mut cs).unwrap(), second);
    assert!(cs.is_empty());
}

#[test]
fn truncated_operation_fails() {
    let bytes = OperationContent::Reveal(sample_reveal()).forge();
    assert!(OperationContent::from_bytes(&bytes[..bytes.len() - 1]).is_err());
    let bytes = OperationContent::Delegation(delegation(None)).forge();
    let mut bad = bytes.clone();
    *bad.last_mut().unwrap() = 7;
    assert_eq!(OperationContent::from_bytes(&bad), Err(Error::InvalidBytes));
}

#[test]
fn accessors_return_fields() {
    let r = sample_reveal();
    assert_eq!(r.fee().value(), 1266);
    assert_eq!(r.counter(), &Nat::from_u64(30));
    assert_eq!(r.gas_limit(), &Nat::from_u64(10100));
    assert_eq!(r.storage_limit(), &Nat::from_u64(0));
    assert_eq!(r.source(), &address(Curve::Ed25519, 1));
    assert_eq!(r.public_key().curve(), Curve::Ed25519);
    assert_eq!(Reveal::tag(), 107);
    assert_eq!(Delegation::tag(), 110);
}

#[test]
fn mutez_bounds() {
    assert!(Mutez::new(9223372036854775807).is_ok());
    assert_eq!(Mutez::new(9223372036854775808), Err(Error::InvalidConversion));
    let n = Nat::from("9223372036854775808").unwrap();
    assert_eq!(Mutez::try_from_nat(&n), Err(Error::InvalidConversion));
    assert_eq!(Mutez::new(5).unwrap().to_nat(), Nat::from_u64(5));
    assert_eq!(Mutez::new(128).unwrap().to_bytes(), vec![0x80, 0x01]);
}

fn transaction(destination: Address, parameters: Option<Parameters>) -> Transaction {
    Transaction::new(
        address(Curve::Ed25519, 6),
        Mutez::new(1000).unwrap(),
        Nat::from_u64(12),
        Nat::from_u64(1527),
        Nat::from_u64(257),
        Mutez::new(200).unwrap(),
        destination,
        parameters,
    )
}

#[test]
fn transaction_forges_fields_in_order() {
    let op = OperationContent::Transaction(transaction(
        Address::Implicit(address(Curve::Secp256K1, 8)),
        None,
    ));
    let mut expected = vec![108u8, 0];
    expected.extend(vec![6u8; 20]);
    expected.extend([0xE8, 0x07, 12, 0xF7, 0x0B, 0x81, 0x02, 0xC8, 0x01]);
    expected.extend([0, 1]);
    expected.extend(vec![8u8; 20]);
    expected.push(0);
    assert_eq!(op.forge(), expected);
    assert_eq!(OperationContent::from_bytes(&expected).unwrap(), op);
    assert_eq!(Transaction::tag(), 108);
}

#[test]
fn transaction_to_contract_with_parameters() {
    let contract = ContractAddress::new(vec![4u8; 20]).unwrap();
    let parameters = Parameters::new(Entrypoint::Named(b"transfer".to_vec()), vec![0x05, 0x00, 0x07]).unwrap();
    let op = OperationContent::Transaction(transaction(
        Address::Originated(contract),
        Some(parameters),
    ));
    let bytes = op.forge();
    let mut expected_tail = vec![1u8];
    expected_tail.extend(vec![4u8; 20]);
    expected_tail.extend([0, 255, 255, 8]);
    expected_tail.extend(b"transfer");
    expected_tail.extend([0, 0, 0, 3, 0x05, 0x00, 0x07]);
    let tail = &bytes[bytes.len() - expected_tail.len()..];
    assert_eq!(tail, &expected_tail[..]);
    assert_eq!(OperationContent::from_bytes(&bytes).unwrap(), op);
    let default = Parameters::new(Entrypoint::Default, vec![]).unwrap();
    let plain = OperationContent::Transaction(transaction(
        Address::Implicit(address(Curve::P256, 2)),
        Some(default),
    ));
    let bytes = plain.forge();
    assert_eq!(bytes[bytes.len() - 6..], [255, 0, 0, 0, 0, 0]);
    assert_eq!(OperationContent::from_bytes(&bytes).unwrap(), plain);
}

#[test]
fn parameters_limits() {
    assert_eq!(Parameters::new(Entrypoint::Named(vec![b'a'; 32]), vec![]), Err(Error::InvalidBytes));
    assert!(Parameters::new(Entrypoint::Named(vec![b'a'; 31]), vec![]).is_ok());
}

#[test]
fn decode_errors_name_the_failing_field() {
    let bytes = OperationContent::Reveal(sample_reveal()).forge();
    assert_eq!(OperationContent::from_bytes(&bytes[..10]), Err(Error::InvalidAddress));
    assert_eq!(OperationContent::from_bytes(&bytes[..23]), Err(Error::InvalidNaturalBytes));
    assert_eq!(
        OperationContent::from_bytes(&bytes[..bytes.len() - 1]),
        Err(Error::InvalidPublicKeyBytes)
    );
    let tx = OperationContent::Transaction(transaction(
        Address::Originated(ContractAddress::new(vec![4u8; 20]).unwrap()),
        None,
    ))
    .forge();
    assert_eq!(OperationContent::from_bytes(&tx[..tx.len() - 3]), Err(Error::InvalidContractAddress));
    let mut big_fee = vec![110u8, 0];
    big_fee.extend(vec![1u8; 20]);
    big_fee.extend(Nat::from("9223372036854775808").unwrap().to_bytes().unwrap());
    assert_eq!(OperationContent::from_bytes(&big_fee), Err(Error::InvalidConversion));
}
