use tezos_core::consumable::ConsumableBytes;
use tezos_core::encoded::{
    ContractAddress, Curve, ImplicitAddress, PublicKey, Signature, SignatureKind,
};
use tezos_core::error::Error;

#[test]
fn address_bytes_round_trip() {
    let a = ImplicitAddress::new(Curve::Secp256K1, vec![5u8; 20]).unwrap();
    let bytes = a.to_bytes();
    assert_eq!(bytes.len(), 21);
    assert_eq!(bytes[0], 1);
    assert_eq!(ImplicitAddress::from_bytes(&bytes).unwrap(), a);
    let mut cs = ConsumableBytes::new(&bytes);
    assert_eq!(ImplicitAddress::from_consumable_bytes(&mut cs).unwrap(), a);
    assert!(cs.is_empty());
}

#[test]
fn address_wrong_length_or_tag() {
    assert_eq!(ImplicitAddress::new(Curve::Ed25519, vec![0u8; 19]), Err(Error::InvalidAddress));
    assert_eq!(ImplicitAddress::from_bytes(&[0u8; 20]), Err(Error::InvalidAddress));
    let mut bytes = vec![3u8];
    bytes.extend(vec![0u8; 20]);
    assert_eq!(ImplicitAddress::from_bytes(&bytes), Err(Error::InvalidAddress));
}

#[test]
fn address_base58_text() {
    for (curve, prefix) in [(Curve::Ed25519, "tz1"), (Curve::Secp256K1, "tz2"), (Curve::P256, "tz3")] {
        let a = ImplicitAddress::new(curve, vec![7u8; 20]).unwrap();
        let text = a.to_base58();
        assert!(text.starts_with(prefix));
        assert_eq!(text.len(), 36);
        assert_eq!(ImplicitAddress::from_base58(&text).unwrap(), a);
    }
}

#[test]
fn base58_rejects_corrupt_text() {
    let a = ImplicitAddress::new(Curve::Ed25519, vec![7u8; 20]).unwrap();
    let mut text = a.to_base58();
    let last = text.pop().unwrap();
    text.push(if last == 'a' { 'b' } else { 'a' });
    assert!(matches!(
        ImplicitAddress::from_base58(&text),
        Err(Error::InvalidBase58EncodedData { .. })
    ));
    assert!(matches!(
        ImplicitAddress::from_base58("0OIl"),
        Err(Error::InvalidBase58EncodedData { .. })
    ));
    let key = PublicKey::new(Curve::Ed25519, vec![1u8; 32]).unwrap();
    assert_eq!(ImplicitAddress::from_base58(&key.to_base58()), Err(Error::InvalidAddress));
}

#[test]
fn public_key_forms() {
    for (curve, len, prefix) in [
        (Curve::Ed25519, 32usize, "edpk"),
        (Curve::Secp256K1, 33, "sppk"),
        (Curve::P256, 33, "p2pk"),
    ] {
        let k = PublicKey::new(curve, vec![9u8; len]).unwrap();
        let bytes = k.to_bytes();
        assert_eq!(bytes.len(), len + 1);
        let mut cs = ConsumableBytes::new(&bytes);
        assert_eq!(PublicKey::from_consumable_bytes(&mut cs).unwrap(), k);
        let text = k.to_base58();
        assert!(text.starts_with(prefix));
        assert_eq!(PublicKey::from_base58(&text).unwrap(), k);
    }
    assert_eq!(PublicKey::new(Curve::Ed25519, vec![0u8; 33]), Err(Error::InvalidPublicKeyBytes));
    let mut cs = ConsumableBytes::new(&[0u8, 1, 2]);
    assert_eq!(PublicKey::from_consumable_bytes(&mut cs), Err(Error::InvalidPublicKeyBytes));
}

#[test]
fn contract_address_text() {
    let c = ContractAddress::new(vec![3u8; 20]).unwrap();
    let text = c.to_base58();
    assert!(text.starts_with("KT1"));
    assert_eq!(ContractAddress::from_base58(&text).unwrap(), c);
    assert_eq!(ContractAddress::new(vec![3u8; 21]), Err(Error::InvalidContractAddress));
    let a = ImplicitAddress::new(Curve::Ed25519, vec![3u8; 20]).unwrap();
    assert_eq!(ContractAddress::from_base58(&a.to_base58()), Err(Error::InvalidContractAddress));
}

#[test]
fn signature_forms() {
    for (kind, prefix) in [
        (SignatureKind::Generic, "sig"),
        (SignatureKind::Ed25519, "edsig"),
        (SignatureKind::Secp256K1, "spsig1"),
        (SignatureKind::P256, "p2sig"),
    ] {
        let sig = Signature::new(kind, vec![0x5Au8; 64]).unwrap();
        let text = sig.to_base58();
        assert!(text.starts_with(prefix));
        assert_eq!(Signature::from_base58(&text).unwrap(), sig);
        assert_eq!(sig.to_bytes(), vec![0x5Au8; 64]);
    }
    assert_eq!(Signature::from_bytes(&[0u8; 63]), Err(Error::InvalidSignatureBytes));
    assert_eq!(Signature::from_bytes(&[1u8; 64]).unwrap().kind(), SignatureKind::Generic);
}
