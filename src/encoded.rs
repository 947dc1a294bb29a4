//! Implicit addresses and public keys: fixed-size raw bytes tagged with the
//! signing curve, in their forged byte form and in checksummed Base58 text.
use vstd::prelude::*;
use crate::consumable::ConsumableBytes;
use crate::error::Error;

verus! {

/// The Base58 text, with checksum, of a payload.
pub uninterp spec fn base58check_text(payload: Seq<u8>) -> Seq<char>;

/// The payload of checksummed Base58 text, or `None` where the text is not
/// Base58 or its checksum does not match.
pub uninterp spec fn base58check_payload(text: Seq<char>) -> Option<Seq<u8>>;

/// Relies on `bs58::encode(..).with_check().into_string()`: the Base58 text
/// of the payload followed by its checksum, which the checked decoding reads
/// back as the payload.
#[verifier::external_body]
fn to_base58check(payload: &[u8]) -> (r: String)
    ensures
        r@ == base58check_text(payload@),
        base58check_payload(r@) == Some(payload@),
{
    bs58::encode(payload).with_check().into_string()
}

/// Relies on `bs58::decode(..).with_check(None).into_vec()`: the payload of
/// the text with its checksum verified and removed, or `None` where the
/// crate reports an error.
#[verifier::external_body]
fn from_base58check(text: &str) -> (r: Option<Vec<u8>>)
    ensures
        base58check_payload(text@) is Some ==> r is Some && r->Some_0@ == base58check_payload(
            text@,
        )->Some_0,
        base58check_payload(text@) is None ==> r is None,
{
    bs58::decode(text).with_check(None).into_vec().ok()
}

/// The signing curve behind an implicit address or a key.
#[derive(Debug, Clone, Copy, PartialEq, Eq, Structural)]
pub enum Curve {
    Ed25519,
    Secp256K1,
    P256,
}

/// The byte that stands for a curve in forged bytes.
pub open spec fn curve_tag(c: Curve) -> u8 {
    match c {
        Curve::Ed25519 => 0,
        Curve::Secp256K1 => 1,
        Curve::P256 => 2,
    }
}

pub open spec fn curve_of_tag(t: u8) -> Curve {
    if t == 0 {
        Curve::Ed25519
    } else if t == 1 {
        Curve::Secp256K1
    } else {
        Curve::P256
    }
}

/// Size of the public key hash behind an implicit address.
pub const ADDRESS_HASH_LENGTH: usize = 20;

/// The Base58 prefix of implicit addresses (`tz1`, `tz2`, `tz3`).
pub open spec fn address_prefix(c: Curve) -> Seq<u8> {
    match c {
        Curve::Ed25519 => seq![6u8, 161u8, 159u8],
        Curve::Secp256K1 => seq![6u8, 161u8, 161u8],
        Curve::P256 => seq![6u8, 161u8, 164u8],
    }
}

/// The Base58 prefix of public keys (`edpk`, `sppk`, `p2pk`).
pub open spec fn public_key_prefix(c: Curve) -> Seq<u8> {
    match c {
        Curve::Ed25519 => seq![13u8, 15u8, 37u8, 217u8],
        Curve::Secp256K1 => seq![3u8, 254u8, 226u8, 86u8],
        Curve::P256 => seq![3u8, 178u8, 139u8, 127u8],
    }
}

/// Size of a public key on the curve.
pub open spec fn public_key_length(c: Curve) -> nat {
    match c {
        Curve::Ed25519 => 32,
        Curve::Secp256K1 => 33,
        Curve::P256 => 33,
    }
}

fn curve_tag_exec(c: Curve) -> (r: u8)
    ensures
        r == curve_tag(c),
{
    match c {
        Curve::Ed25519 => 0,
        Curve::Secp256K1 => 1,
        Curve::P256 => 2,
    }
}

fn curve_of_tag_exec(t: u8) -> (r: Curve)
    ensures
        r == curve_of_tag(t),
{
    if t == 0 {
        Curve::Ed25519
    } else if t == 1 {
        Curve::Secp256K1
    } else {
        Curve::P256
    }
}

fn address_prefix_exec(c: Curve) -> (r: Vec<u8>)
    ensures
        r@ == address_prefix(c),
{
    let r = match c {
        Curve::Ed25519 => vec![6u8, 161u8, 159u8],
        Curve::Secp256K1 => vec![6u8, 161u8, 161u8],
        Curve::P256 => vec![6u8, 161u8, 164u8],
    };
    proof {
        assert(r@ =~= address_prefix(c));
    }
    r
}

fn public_key_prefix_exec(c: Curve) -> (r: Vec<u8>)
    ensures
        r@ == public_key_prefix(c),
{
    let r = match c {
        Curve::Ed25519 => vec![13u8, 15u8, 37u8, 217u8],
        Curve::Secp256K1 => vec![3u8, 254u8, 226u8, 86u8],
        Curve::P256 => vec![3u8, 178u8, 139u8, 127u8],
    };
    proof {
        assert(r@ =~= public_key_prefix(c));
    }
    r
}

fn public_key_length_exec(c: Curve) -> (r: usize)
    ensures
        r == public_key_length(c),
{
    match c {
        Curve::Ed25519 => 32,
        Curve::Secp256K1 => 33,
        Curve::P256 => 33,
    }
}

/// Whether `s` starts with `prefix`.
fn starts_with(s: &[u8], prefix: &Vec<u8>) -> (r: bool)
    ensures
        r == (prefix@.len() <= s@.len() && s@.subrange(0, prefix@.len() as int) == prefix@),
{
    if prefix.len() > s.len() {
        return false;
    }
    let mut i: usize = 0;
    while i < prefix.len()
        invariant
            prefix@.len() <= s@.len(),
            i <= prefix@.len(),
            forall|j: int| 0 <= j < i ==> s@[j] == prefix@[j],
        decreases prefix@.len() - i,
    {
        if s[i] != prefix[i] {
            proof {
                assert(s@.subrange(0, prefix@.len() as int)[i as int] == s@[i as int]);
            }
            return false;
        }
        i = i + 1;
    }
    proof {
        assert(s@.subrange(0, prefix@.len() as int) =~= prefix@);
    }
    true
}

/// Copies `s[start..end]`.
fn copy_range(s: &[u8], start: usize, end: usize) -> (r: Vec<u8>)
    requires
        start <= end <= s@.len(),
    ensures
        r@ == s@.subrange(start as int, end as int),
{
    let mut r: Vec<u8> = Vec::new();
    let mut i: usize = start;
    while i < end
        invariant
            start <= i <= end,
            end <= s@.len(),
            r@ == s@.subrange(start as int, i as int),
        decreases end - i,
    {
        r.push(s[i]);
        i = i + 1;
        proof {
            assert(r@ =~= s@.subrange(start as int, i as int));
        }
    }
    r
}

/// `a` followed by `b`.
fn concat(a: &Vec<u8>, b: &Vec<u8>) -> (r: Vec<u8>)
    ensures
        r@ == a@ + b@,
{
    let mut r = a.clone();
    let mut i: usize = 0;
    proof {
        assert(r@ =~= a@ + b@.subrange(0, 0));
    }
    while i < b.len()
        invariant
            i <= b@.len(),
            r@ == a@ + b@.subrange(0, i as int),
        decreases b@.len() - i,
    {
        r.push(b[i]);
        i = i + 1;
        proof {
            assert(r@ =~= a@ + b@.subrange(0, i as int));
        }
    }
    proof {
        assert(b@.subrange(0, b@.len() as int) =~= b@);
    }
    r
}

/// What an implicit address is: its curve and its public key hash.
pub type AddressView = (Curve, Seq<u8>);

/// The forged bytes of an implicit address: the curve's tag, then the hash.
pub open spec fn forged_address(a: AddressView) -> Seq<u8> {
    seq![curve_tag(a.0)] + a.1
}

/// Reads an implicit address from the front of `s`; gives the address and
/// what follows it.
pub open spec fn parse_address(s: Seq<u8>) -> Option<(AddressView, Seq<u8>)> {
    if s.len() >= 21 && s[0] < 3 {
        Some(((curve_of_tag(s[0]), s.subrange(1, 21)), s.skip(21)))
    } else {
        None
    }
}

pub open spec fn address_wf(a: AddressView) -> bool {
    a.1.len() == 20
}

/// A Base58 payload of an implicit address: a curve's prefix and 20 bytes.
pub open spec fn address_payload_ok(p: Seq<u8>) -> bool {
    p.len() == 23 && exists|c: Curve| p == address_prefix(c) + p.skip(3)
}

/// The Base58 payload of an address is accepted, and no other address has
/// it: the text of an address reads back as that address.
pub proof fn lemma_address_payload(a: AddressView, b: AddressView)
    requires
        address_wf(a),
    ensures
        address_payload_ok(address_prefix(a.0) + a.1),
        address_prefix(b.0) + b.1 == address_prefix(a.0) + a.1 ==> b == a,
{
    let p = address_prefix(a.0) + a.1;
    assert(p.skip(3) =~= a.1);
    if address_prefix(b.0) + b.1 == p {
        let q = address_prefix(b.0) + b.1;
        assert(q.subrange(0, 3) =~= address_prefix(b.0));
        assert(p.subrange(0, 3) =~= address_prefix(a.0));
        assert(address_prefix(b.0)[2] == address_prefix(a.0)[2]);
        assert(b.0 == a.0);
        assert(q.skip(3) =~= b.1);
    }
}

/// An account address derived from a public key.
#[derive(Debug, PartialEq, Eq)]
pub struct ImplicitAddress {
    curve: Curve,
    hash: Vec<u8>,
}

impl View for ImplicitAddress {
    type V = AddressView;

    closed spec fn view(&self) -> AddressView {
        (self.curve, self.hash@)
    }
}

impl Clone for ImplicitAddress {
    fn clone(&self) -> (r: Self)
        ensures
            r@ == self@,
    {
        proof {
            use_type_invariant(self);
        }
        ImplicitAddress { curve: self.curve, hash: self.hash.clone() }
    }
}

impl ImplicitAddress {
    #[verifier::type_invariant]
    spec fn inv(&self) -> bool {
        self.hash@.len() == 20
    }

    /// An address from its curve and its 20-byte hash.
    pub fn new(curve: Curve, hash: Vec<u8>) -> (r: Result<ImplicitAddress, Error>)
        ensures
            hash@.len() == 20 ==> r is Ok && r->Ok_0@ == (curve, hash@),
            hash@.len() != 20 ==> r == Err::<ImplicitAddress, Error>(Error::InvalidAddress),
    {
        if hash.len() != ADDRESS_HASH_LENGTH {
            return Err(Error::InvalidAddress);
        }
        Ok(ImplicitAddress { curve, hash })
    }

    pub fn curve(&self) -> (r: Curve)
        ensures
            r == self@.0,
    {
        self.curve
    }

    pub fn hash(&self) -> (r: &Vec<u8>)
        ensures
            r@ == self@.1,
            address_wf(self@),
    {
        proof {
            use_type_invariant(self);
        }
        &self.hash
    }

    /// The forged bytes: the curve's tag, then the hash.
    pub fn to_bytes(&self) -> (r: Vec<u8>)
        ensures
            r@ == forged_address(self@),
            address_wf(self@),
    {
        proof {
            use_type_invariant(self);
        }
        let tag = vec![curve_tag_exec(self.curve)];
        let r = concat(&tag, &self.hash);
        proof {
            assert(tag@ =~= seq![curve_tag(self.curve)]);
        }
        r
    }

    /// Reads an address from the front of `bytes`, consuming its 21 bytes.
    pub fn from_consumable_bytes(bytes: &mut ConsumableBytes) -> (r: Result<
        ImplicitAddress,
        Error,
    >)
        ensures
            parse_address(old(bytes)@) is Some ==> r is Ok && r->Ok_0@ == parse_address(
                old(bytes)@,
            )->Some_0.0 && final(bytes)@ == parse_address(old(bytes)@)->Some_0.1,
            parse_address(old(bytes)@) is None ==> r == Err::<ImplicitAddress, Error>(
                Error::InvalidAddress,
            ),
    {
        let ghost s = bytes@;
        let tag = match bytes.consume_first() {
            Ok(t) => t,
            Err(_) => {
                return Err(Error::InvalidAddress);
            },
        };
        if tag >= 3 {
            return Err(Error::InvalidAddress);
        }
        let hash = match bytes.consume_first_n(ADDRESS_HASH_LENGTH) {
            Ok(h) => h,
            Err(_) => {
                return Err(Error::InvalidAddress);
            },
        };
        proof {
            assert(hash@ =~= s.subrange(1, 21));
            assert(bytes@ =~= s.skip(21));
        }
        Ok(ImplicitAddress { curve: curve_of_tag_exec(tag), hash })
    }

    /// Reads an address from its 21 forged bytes exactly.
    pub fn from_bytes(bytes: &[u8]) -> (r: Result<ImplicitAddress, Error>)
        ensures
            bytes@.len() == 21 && bytes@[0] < 3 ==> r is Ok && r->Ok_0@ == (
                curve_of_tag(bytes@[0]),
                bytes@.subrange(1, 21),
            ),
            !(bytes@.len() == 21 && bytes@[0] < 3) ==> r == Err::<ImplicitAddress, Error>(
                Error::InvalidAddress,
            ),
    {
        if bytes.len() != 21 {
            return Err(Error::InvalidAddress);
        }
        let mut cs = ConsumableBytes::new(bytes);
        Self::from_consumable_bytes(&mut cs)
    }

    /// Reads an address from a Base58 payload: the curve's prefix, then the
    /// 20-byte hash.
    pub fn from_payload(payload: &[u8]) -> (r: Result<ImplicitAddress, Error>)
        ensures
            address_payload_ok(payload@) <==> r is Ok,
            r is Ok ==> payload@ == address_prefix(r->Ok_0@.0) + r->Ok_0@.1,
            r is Err ==> r == Err::<ImplicitAddress, Error>(Error::InvalidAddress),
    {
        if payload.len() != 23 {
            return Err(Error::InvalidAddress);
        }
        let curves = [Curve::Ed25519, Curve::Secp256K1, Curve::P256];
        let mut i: usize = 0;
        while i < 3
            invariant
                payload@.len() == 23,
                i <= 3,
                curves@ == seq![Curve::Ed25519, Curve::Secp256K1, Curve::P256],
                forall|j: int|
                    0 <= j < i ==> !(payload@ == address_prefix(#[trigger] curves@[j])
                        + payload@.skip(3)),
            decreases 3 - i,
        {
            let c = curves[i];
            let prefix = address_prefix_exec(c);
            if starts_with(payload, &prefix) {
                let hash = copy_range(payload, 3, 23);
                proof {
                    assert(payload@ =~= address_prefix(c) + payload@.skip(3));
                    assert(hash@ =~= payload@.skip(3));
                }
                return Ok(ImplicitAddress { curve: c, hash });
            }
            proof {
                if payload@ == address_prefix(c) + payload@.skip(3) {
                    assert(payload@.subrange(0, 3) =~= address_prefix(c));
                }
            }
            i = i + 1;
        }
        proof {
            assert forall|c: Curve| !(payload@ == address_prefix(c) + payload@.skip(3)) by {
                match c {
                    Curve::Ed25519 => assert(curves@[0] == c),
                    Curve::Secp256K1 => assert(curves@[1] == c),
                    Curve::P256 => assert(curves@[2] == c),
                }
            }
        }
        Err(Error::InvalidAddress)
    }

    /// The Base58 text (`tz1...`, `tz2...`, `tz3...`).
    pub fn to_base58(&self) -> (r: String)
        ensures
            r@ == base58check_text(address_prefix(self@.0) + self@.1),
            base58check_payload(r@) == Some(address_prefix(self@.0) + self@.1),
    {
        let payload = concat(&address_prefix_exec(self.curve), &self.hash);
        to_base58check(payload.as_slice())
    }

    /// Reads an address from its Base58 text.
    pub fn from_base58(text: &str) -> (r: Result<ImplicitAddress, Error>)
        ensures
            base58check_payload(text@) is None ==> r is Err && r->Err_0
                is InvalidBase58EncodedData,
            base58check_payload(text@) is Some && address_payload_ok(
                base58check_payload(text@)->Some_0,
            ) ==> r is Ok,
            base58check_payload(text@) is Some && !address_payload_ok(
                base58check_payload(text@)->Some_0,
            ) ==> r == Err::<ImplicitAddress, Error>(Error::InvalidAddress),
            r is Ok ==> base58check_payload(text@) == Some(address_prefix(r->Ok_0@.0) + r->Ok_0@.1),
    {
        match from_base58check(text) {
            Some(payload) => Self::from_payload(payload.as_slice()),
            None => Err(Error::InvalidBase58EncodedData { description: String::new() }),
        }
    }
}

/// What a public key is: its curve and its bytes.
pub type PublicKeyView = (Curve, Seq<u8>);

/// The forged bytes of a public key: the curve's tag, then the key.
pub open spec fn forged_public_key(k: PublicKeyView) -> Seq<u8> {
    seq![curve_tag(k.0)] + k.1
}

/// Reads a public key from the front of `s`; gives the key and what follows.
pub open spec fn parse_public_key(s: Seq<u8>) -> Option<(PublicKeyView, Seq<u8>)> {
    if s.len() >= 1 && s[0] < 3 && s.len() >= 1 + public_key_length(curve_of_tag(s[0])) {
        let n = 1 + public_key_length(curve_of_tag(s[0]));
        Some(((curve_of_tag(s[0]), s.subrange(1, n as int)), s.skip(n as int)))
    } else {
        None
    }
}

pub open spec fn public_key_wf(k: PublicKeyView) -> bool {
    k.1.len() == public_key_length(k.0)
}

/// A Base58 payload of a public key: a curve's prefix and a key of that
/// curve's size.
pub open spec fn public_key_payload_ok(p: Seq<u8>) -> bool {
    exists|c: Curve| p == public_key_prefix(c) + p.skip(4) && p.len() == 4 + public_key_length(c)
}

/// The Base58 payload of a key is accepted, and no other key has it: the
/// text of a key reads back as that key.
pub proof fn lemma_public_key_payload(k: PublicKeyView, j: PublicKeyView)
    requires
        public_key_wf(k),
    ensures
        public_key_payload_ok(public_key_prefix(k.0) + k.1),
        public_key_prefix(j.0) + j.1 == public_key_prefix(k.0) + k.1 ==> j == k,
{
    let p = public_key_prefix(k.0) + k.1;
    assert(p.skip(4) =~= k.1);
    if public_key_prefix(j.0) + j.1 == p {
        let q = public_key_prefix(j.0) + j.1;
        assert(q.subrange(0, 4) =~= public_key_prefix(j.0));
        assert(p.subrange(0, 4) =~= public_key_prefix(k.0));
        assert(public_key_prefix(j.0)[1] == public_key_prefix(k.0)[1]);
        assert(j.0 == k.0);
        assert(q.skip(4) =~= j.1);
    }
}

/// A public key on one of the supported curves.
#[derive(Debug, PartialEq, Eq)]
pub struct PublicKey {
    curve: Curve,
    key: Vec<u8>,
}

impl View for PublicKey {
    type V = PublicKeyView;

    closed spec fn view(&self) -> PublicKeyView {
        (self.curve, self.key@)
    }
}

impl Clone for PublicKey {
    fn clone(&self) -> (r: Self)
        ensures
            r@ == self@,
    {
        proof {
            use_type_invariant(self);
        }
        PublicKey { curve: self.curve, key: self.key.clone() }
    }
}

impl PublicKey {
    #[verifier::type_invariant]
    spec fn inv(&self) -> bool {
        public_key_wf((self.curve, self.key@))
    }

    /// A key from its curve and its bytes, which must have the curve's size.
    pub fn new(curve: Curve, key: Vec<u8>) -> (r: Result<PublicKey, Error>)
        ensures
            key@.len() == public_key_length(curve) ==> r is Ok && r->Ok_0@ == (curve, key@),
            key@.len() != public_key_length(curve) ==> r == Err::<PublicKey, Error>(
                Error::InvalidPublicKeyBytes,
            ),
    {
        if key.len() != public_key_length_exec(curve) {
            return Err(Error::InvalidPublicKeyBytes);
        }
        Ok(PublicKey { curve, key })
    }

    pub fn curve(&self) -> (r: Curve)
        ensures
            r == self@.0,
    {
        self.curve
    }

    pub fn key(&self) -> (r: &Vec<u8>)
        ensures
            r@ == self@.1,
            public_key_wf(self@),
    {
        proof {
            use_type_invariant(self);
        }
        &self.key
    }

    /// The forged bytes: the curve's tag, then the key.
    pub fn to_bytes(&self) -> (r: Vec<u8>)
        ensures
            r@ == forged_public_key(self@),
            public_key_wf(self@),
    {
        proof {
            use_type_invariant(self);
        }
        let tag = vec![curve_tag_exec(self.curve)];
        let r = concat(&tag, &self.key);
        proof {
            assert(tag@ =~= seq![curve_tag(self.curve)]);
        }
        r
    }

    /// Reads a key from the front of `bytes`, consuming its forged bytes.
    pub fn from_consumable_bytes(bytes: &mut ConsumableBytes) -> (r: Result<PublicKey, Error>)
        ensures
            parse_public_key(old(bytes)@) is Some ==> r is Ok && r->Ok_0@ == parse_public_key(
                old(bytes)@,
            )->Some_0.0 && final(bytes)@ == parse_public_key(old(bytes)@)->Some_0.1,
            parse_public_key(old(bytes)@) is None ==> r == Err::<PublicKey, Error>(
                Error::InvalidPublicKeyBytes,
            ),
    {
        let ghost s = bytes@;
        let tag = match bytes.consume_first() {
            Ok(t) => t,
            Err(_) => {
                return Err(Error::InvalidPublicKeyBytes);
            },
        };
        if tag >= 3 {
            return Err(Error::InvalidPublicKeyBytes);
        }
        let curve = curve_of_tag_exec(tag);
        let n = public_key_length_exec(curve);
        let key = match bytes.consume_first_n(n) {
            Ok(k) => k,
            Err(_) => {
                return Err(Error::InvalidPublicKeyBytes);
            },
        };
        proof {
            assert(key@ =~= s.subrange(1, 1 + n));
            assert(bytes@ =~= s.skip(1 + n));
        }
        Ok(PublicKey { curve, key })
    }

    /// Reads a key from a Base58 payload: the curve's prefix, then the key.
    pub fn from_payload(payload: &[u8]) -> (r: Result<PublicKey, Error>)
        ensures
            public_key_payload_ok(payload@) <==> r is Ok,
            r is Ok ==> payload@ == public_key_prefix(r->Ok_0@.0) + r->Ok_0@.1,
            r is Err ==> r == Err::<PublicKey, Error>(Error::InvalidPublicKeyBytes),
    {
        let curves = [Curve::Ed25519, Curve::Secp256K1, Curve::P256];
        let mut i: usize = 0;
        while i < 3
            invariant
                i <= 3,
                curves@ == seq![Curve::Ed25519, Curve::Secp256K1, Curve::P256],
                forall|j: int|
                    0 <= j < i ==> !(payload@ == public_key_prefix(#[trigger] curves@[j])
                        + payload@.skip(4) && payload@.len() == 4 + public_key_length(curves@[j])),
            decreases 3 - i,
        {
            let c = curves[i];
            let prefix = public_key_prefix_exec(c);
            let n = public_key_length_exec(c);
            if payload.len() == 4 + n && starts_with(payload, &prefix) {
                let key = copy_range(payload, 4, payload.len());
                proof {
                    assert(payload@ =~= public_key_prefix(c) + payload@.skip(4));
                    assert(key@ =~= payload@.skip(4));
                }
                return Ok(PublicKey { curve: c, key });
            }
            proof {
                if payload@ == public_key_prefix(c) + payload@.skip(4) && payload@.len() == 4
                    + public_key_length(c) {
                    assert(payload@.subrange(0, 4) =~= public_key_prefix(c));
                }
            }
            i = i + 1;
        }
        proof {
            assert forall|c: Curve|
                !(payload@ == public_key_prefix(c) + payload@.skip(4) && payload@.len() == 4
                    + public_key_length(c)) by {
                match c {
                    Curve::Ed25519 => assert(curves@[0] == c),
                    Curve::Secp256K1 => assert(curves@[1] == c),
                    Curve::P256 => assert(curves@[2] == c),
                }
            }
        }
        Err(Error::InvalidPublicKeyBytes)
    }

    /// The Base58 text (`edpk...`, `sppk...`, `p2pk...`).
    pub fn to_base58(&self) -> (r: String)
        ensures
            r@ == base58check_text(public_key_prefix(self@.0) + self@.1),
            base58check_payload(r@) == Some(public_key_prefix(self@.0) + self@.1),
    {
        let payload = concat(&public_key_prefix_exec(self.curve), &self.key);
        to_base58check(payload.as_slice())
    }

    /// Reads a key from its Base58 text.
    pub fn from_base58(text: &str) -> (r: Result<PublicKey, Error>)
        ensures
            base58check_payload(text@) is None ==> r is Err && r->Err_0
                is InvalidBase58EncodedData,
            base58check_payload(text@) is Some && public_key_payload_ok(
                base58check_payload(text@)->Some_0,
            ) ==> r is Ok,
            base58check_payload(text@) is Some && !public_key_payload_ok(
                base58check_payload(text@)->Some_0,
            ) ==> r == Err::<PublicKey, Error>(Error::InvalidPublicKeyBytes),
            r is Ok ==> base58check_payload(text@) == Some(
                public_key_prefix(r->Ok_0@.0) + r->Ok_0@.1,
            ),
    {
        match from_base58check(text) {
            Some(payload) => Self::from_payload(payload.as_slice()),
            None => Err(Error::InvalidBase58EncodedData { description: String::new() }),
        }
    }
}

/// The Base58 prefix of originated contract addresses (`KT1`).
pub open spec fn contract_prefix() -> Seq<u8> {
    seq![2u8, 90u8, 121u8]
}

fn contract_prefix_exec() -> (r: Vec<u8>)
    ensures
        r@ == contract_prefix(),
{
    let r = vec![2u8, 90u8, 121u8];
    proof {
        assert(r@ =~= contract_prefix());
    }
    r
}

/// A Base58 payload of a contract address: the prefix and 20 bytes.
pub open spec fn contract_payload_ok(p: Seq<u8>) -> bool {
    p.len() == 23 && p.subrange(0, 3) == contract_prefix()
}

/// The address of an originated contract: a 20-byte hash.
#[derive(Debug, PartialEq, Eq)]
pub struct ContractAddress {
    hash: Vec<u8>,
}

impl View for ContractAddress {
    type V = Seq<u8>;

    closed spec fn view(&self) -> Seq<u8> {
        self.hash@
    }
}

impl Clone for ContractAddress {
    fn clone(&self) -> (r: Self)
        ensures
            r@ == self@,
    {
        proof {
            use_type_invariant(self);
        }
        ContractAddress { hash: self.hash.clone() }
    }
}

impl ContractAddress {
    #[verifier::type_invariant]
    spec fn inv(&self) -> bool {
        self.hash@.len() == 20
    }

    pub fn new(hash: Vec<u8>) -> (r: Result<ContractAddress, Error>)
        ensures
            hash@.len() == 20 ==> r is Ok && r->Ok_0@ == hash@,
            hash@.len() != 20 ==> r == Err::<ContractAddress, Error>(Error::InvalidContractAddress),
    {
        if hash.len() != ADDRESS_HASH_LENGTH {
            return Err(Error::InvalidContractAddress);
        }
        Ok(ContractAddress { hash })
    }

    pub fn hash(&self) -> (r: &Vec<u8>)
        ensures
            r@ == self@,
            r@.len() == 20,
    {
        proof {
            use_type_invariant(self);
        }
        &self.hash
    }

    /// Reads a contract address from a Base58 payload: the prefix, then the
    /// 20-byte hash.
    pub fn from_payload(payload: &[u8]) -> (r: Result<ContractAddress, Error>)
        ensures
            contract_payload_ok(payload@) <==> r is Ok,
            r is Ok ==> payload@ == contract_prefix() + r->Ok_0@,
            r is Err ==> r == Err::<ContractAddress, Error>(Error::InvalidContractAddress),
    {
        let prefix = contract_prefix_exec();
        if payload.len() != 23 || !starts_with(payload, &prefix) {
            return Err(Error::InvalidContractAddress);
        }
        let hash = copy_range(payload, 3, 23);
        proof {
            assert(payload@ =~= contract_prefix() + hash@);
        }
        Ok(ContractAddress { hash })
    }

    /// The Base58 text (`KT1...`).
    pub fn to_base58(&self) -> (r: String)
        ensures
            r@ == base58check_text(contract_prefix() + self@),
            base58check_payload(r@) == Some(contract_prefix() + self@),
    {
        let payload = concat(&contract_prefix_exec(), &self.hash);
        to_base58check(payload.as_slice())
    }

    /// Reads a contract address from its Base58 text.
    pub fn from_base58(text: &str) -> (r: Result<ContractAddress, Error>)
        ensures
            base58check_payload(text@) is None ==> r is Err && r->Err_0
                is InvalidBase58EncodedData,
            base58check_payload(text@) is Some && contract_payload_ok(
                base58check_payload(text@)->Some_0,
            ) ==> r is Ok,
            base58check_payload(text@) is Some && !contract_payload_ok(
                base58check_payload(text@)->Some_0,
            ) ==> r == Err::<ContractAddress, Error>(Error::InvalidContractAddress),
            r is Ok ==> base58check_payload(text@) == Some(contract_prefix() + r->Ok_0@),
    {
        match from_base58check(text) {
            Some(payload) => Self::from_payload(payload.as_slice()),
            None => Err(Error::InvalidBase58EncodedData { description: String::new() }),
        }
    }
}

/// What a destination address is.
pub enum DestinationView {
    Implicit(AddressView),
    Originated(Seq<u8>),
}

pub open spec fn destination_wf(d: DestinationView) -> bool {
    match d {
        DestinationView::Implicit(a) => address_wf(a),
        DestinationView::Originated(h) => h.len() == 20,
    }
}

/// The forged bytes of a destination: `0` and an implicit address, or `1`,
/// the contract's hash and a padding `0`.
pub open spec fn forged_destination(d: DestinationView) -> Seq<u8> {
    match d {
        DestinationView::Implicit(a) => seq![0u8] + forged_address(a),
        DestinationView::Originated(h) => seq![1u8] + h + seq![0u8],
    }
}

pub open spec fn parse_destination(s: Seq<u8>) -> Option<(DestinationView, Seq<u8>)> {
    if s.len() == 0 {
        None
    } else if s[0] == 0 {
        match parse_address(s.drop_first()) {
            Some((a, rest)) => Some((DestinationView::Implicit(a), rest)),
            None => None,
        }
    } else if s[0] == 1 && s.len() >= 22 && s[21] == 0 {
        Some((DestinationView::Originated(s.subrange(1, 21)), s.skip(22)))
    } else {
        None
    }
}

/// Why a destination cannot be read from the front of `s`.
pub open spec fn destination_error(s: Seq<u8>) -> Error {
    if s.len() > 0 && s[0] == 1 {
        Error::InvalidContractAddress
    } else {
        Error::InvalidAddress
    }
}

/// Any address: an account's or a contract's.
#[derive(Debug, PartialEq, Eq)]
pub enum Address {
    Implicit(ImplicitAddress),
    Originated(ContractAddress),
}

impl View for Address {
    type V = DestinationView;

    open spec fn view(&self) -> DestinationView {
        match self {
            Address::Implicit(a) => DestinationView::Implicit(a@),
            Address::Originated(c) => DestinationView::Originated(c@),
        }
    }
}

impl Clone for Address {
    fn clone(&self) -> (r: Self)
        ensures
            r@ == self@,
    {
        match self {
            Address::Implicit(a) => Address::Implicit(a.clone()),
            Address::Originated(c) => Address::Originated(c.clone()),
        }
    }
}

impl Address {
    /// The forged bytes.
    pub fn to_bytes(&self) -> (r: Vec<u8>)
        ensures
            r@ == forged_destination(self@),
            destination_wf(self@),
    {
        match self {
            Address::Implicit(a) => {
                let r = concat(&vec![0u8], &a.to_bytes());
                proof {
                    assert(r@ =~= forged_destination(self@));
                }
                r
            },
            Address::Originated(c) => {
                let with_hash = concat(&vec![1u8], c.hash());
                let r = concat(&with_hash, &vec![0u8]);
                proof {
                    assert(r@ =~= forged_destination(self@));
                }
                r
            },
        }
    }

    /// Reads an address from the front of `bytes`.
    pub fn from_consumable_bytes(bytes: &mut ConsumableBytes) -> (r: Result<Address, Error>)
        ensures
            parse_destination(old(bytes)@) is Some ==> r is Ok && r->Ok_0@ == parse_destination(
                old(bytes)@,
            )->Some_0.0 && final(bytes)@ == parse_destination(old(bytes)@)->Some_0.1,
            parse_destination(old(bytes)@) is None ==> r == Err::<Address, Error>(
                destination_error(old(bytes)@),
            ),
    {
        let ghost s = bytes@;
        let tag = match bytes.consume_first() {
            Ok(t) => t,
            Err(_) => {
                return Err(Error::InvalidAddress);
            },
        };
        if tag == 0 {
            match ImplicitAddress::from_consumable_bytes(bytes) {
                Ok(a) => Ok(Address::Implicit(a)),
                Err(e) => Err(e),
            }
        } else if tag == 1 {
            let body = match bytes.consume_first_n(21) {
                Ok(b) => b,
                Err(_) => {
                    return Err(Error::InvalidContractAddress);
                },
            };
            if body[20] != 0 {
                return Err(Error::InvalidContractAddress);
            }
            let hash = copy_range(body.as_slice(), 0, 20);
            proof {
                assert(hash@ =~= s.subrange(1, 21));
                assert(bytes@ =~= s.skip(22));
                assert(body@[20] == s[21]);
            }
            Ok(Address::Originated(ContractAddress { hash }))
        } else {
            Err(Error::InvalidAddress)
        }
    }
}

/// The kind of a signature: tied to a curve, or generic.
#[derive(Debug, Clone, Copy, PartialEq, Eq, Structural)]
pub enum SignatureKind {
    Generic,
    Ed25519,
    Secp256K1,
    P256,
}

/// Size of every signature.
pub const SIGNATURE_LENGTH: usize = 64;

/// The Base58 prefix of signatures (`sig`, `edsig`, `spsig1`, `p2sig`).
pub open spec fn signature_prefix(k: SignatureKind) -> Seq<u8> {
    match k {
        SignatureKind::Generic => seq![4u8, 130u8, 43u8],
        SignatureKind::Ed25519 => seq![9u8, 245u8, 205u8, 134u8, 18u8],
        SignatureKind::Secp256K1 => seq![13u8, 115u8, 101u8, 19u8, 63u8],
        SignatureKind::P256 => seq![54u8, 240u8, 44u8, 52u8],
    }
}

fn signature_prefix_exec(k: SignatureKind) -> (r: Vec<u8>)
    ensures
        r@ == signature_prefix(k),
{
    let r = match k {
        SignatureKind::Generic => vec![4u8, 130u8, 43u8],
        SignatureKind::Ed25519 => vec![9u8, 245u8, 205u8, 134u8, 18u8],
        SignatureKind::Secp256K1 => vec![13u8, 115u8, 101u8, 19u8, 63u8],
        SignatureKind::P256 => vec![54u8, 240u8, 44u8, 52u8],
    };
    proof {
        assert(r@ =~= signature_prefix(k));
    }
    r
}

/// A Base58 payload of a signature: a kind's prefix and 64 bytes.
pub open spec fn signature_payload_ok(p: Seq<u8>) -> bool {
    exists|k: SignatureKind|
        p == signature_prefix(k) + p.skip(signature_prefix(k).len() as int) && p.len()
            == signature_prefix(k).len() + 64
}

/// A 64-byte signature of one kind.
#[derive(Debug, PartialEq, Eq)]
pub struct Signature {
    kind: SignatureKind,
    bytes: Vec<u8>,
}

impl View for Signature {
    type V = (SignatureKind, Seq<u8>);

    closed spec fn view(&self) -> (SignatureKind, Seq<u8>) {
        (self.kind, self.bytes@)
    }
}

impl Signature {
    #[verifier::type_invariant]
    spec fn inv(&self) -> bool {
        self.bytes@.len() == 64
    }

    pub fn new(kind: SignatureKind, bytes: Vec<u8>) -> (r: Result<Signature, Error>)
        ensures
            bytes@.len() == 64 ==> r is Ok && r->Ok_0@ == (kind, bytes@),
            bytes@.len() != 64 ==> r == Err::<Signature, Error>(Error::InvalidSignatureBytes),
    {
        if bytes.len() != SIGNATURE_LENGTH {
            return Err(Error::InvalidSignatureBytes);
        }
        Ok(Signature { kind, bytes })
    }

    /// A generic signature from its raw bytes.
    pub fn from_bytes(bytes: &[u8]) -> (r: Result<Signature, Error>)
        ensures
            bytes@.len() == 64 ==> r is Ok && r->Ok_0@ == (SignatureKind::Generic, bytes@),
            bytes@.len() != 64 ==> r == Err::<Signature, Error>(Error::InvalidSignatureBytes),
    {
        if bytes.len() != SIGNATURE_LENGTH {
            return Err(Error::InvalidSignatureBytes);
        }
        Ok(Signature { kind: SignatureKind::Generic, bytes: copy_range(bytes, 0, bytes.len()) })
    }

    pub fn kind(&self) -> (r: SignatureKind)
        ensures
            r == self@.0,
    {
        self.kind
    }

    /// The raw 64 bytes.
    pub fn to_bytes(&self) -> (r: Vec<u8>)
        ensures
            r@ == self@.1,
            r@.len() == 64,
    {
        proof {
            use_type_invariant(self);
        }
        self.bytes.clone()
    }

    /// Reads a signature from a Base58 payload: a kind's prefix, then the 64
    /// bytes.
    pub fn from_payload(payload: &[u8]) -> (r: Result<Signature, Error>)
        ensures
            r is Ok ==> payload@ == signature_prefix(r->Ok_0@.0) + r->Ok_0@.1,
            signature_payload_ok(payload@) <==> r is Ok,
            r is Err ==> r == Err::<Signature, Error>(Error::InvalidSignatureBytes),
    {
        let kinds = [
            SignatureKind::Generic,
            SignatureKind::Ed25519,
            SignatureKind::Secp256K1,
            SignatureKind::P256,
        ];
        let mut i: usize = 0;
        while i < 4
            invariant
                i <= 4,
                kinds@ == seq![
                    SignatureKind::Generic,
                    SignatureKind::Ed25519,
                    SignatureKind::Secp256K1,
                    SignatureKind::P256,
                ],
                forall|j: int|
                    0 <= j < i ==> !(payload@ == signature_prefix(#[trigger] kinds@[j])
                        + payload@.skip(signature_prefix(kinds@[j]).len() as int) && payload@.len()
                        == signature_prefix(kinds@[j]).len() + 64),
            decreases 4 - i,
        {
            let k = kinds[i];
            let prefix = signature_prefix_exec(k);
            let n = prefix.len();
            if payload.len() == n + SIGNATURE_LENGTH && starts_with(payload, &prefix) {
                let bytes = copy_range(payload, n, payload.len());
                proof {
                    assert(payload@ =~= signature_prefix(k) + bytes@);
                    assert(payload@.skip(n as int) =~= bytes@);
                    assert(signature_payload_ok(payload@));
                }
                return Ok(Signature { kind: k, bytes });
            }
            proof {
                let p = signature_prefix(k);
                if payload@ == p + payload@.skip(p.len() as int) && payload@.len() == p.len() + 64 {
                    assert(payload@.subrange(0, p.len() as int) =~= p);
                }
            }
            i = i + 1;
        }
        proof {
            assert forall|k: SignatureKind|
                !(payload@ == signature_prefix(k) + payload@.skip(signature_prefix(k).len() as int)
                    && payload@.len() == signature_prefix(k).len() + 64) by {
                match k {
                    SignatureKind::Generic => assert(kinds@[0] == k),
                    SignatureKind::Ed25519 => assert(kinds@[1] == k),
                    SignatureKind::Secp256K1 => assert(kinds@[2] == k),
                    SignatureKind::P256 => assert(kinds@[3] == k),
                }
            }
        }
        Err(Error::InvalidSignatureBytes)
    }

    /// The Base58 text (`sig...`, `edsig...`, `spsig1...`, `p2sig...`).
    pub fn to_base58(&self) -> (r: String)
        ensures
            r@ == base58check_text(signature_prefix(self@.0) + self@.1),
            base58check_payload(r@) == Some(signature_prefix(self@.0) + self@.1),
    {
        let payload = concat(&signature_prefix_exec(self.kind), &self.bytes);
        to_base58check(payload.as_slice())
    }

    /// Reads a signature from its Base58 text.
    pub fn from_base58(text: &str) -> (r: Result<Signature, Error>)
        ensures
            base58check_payload(text@) is None ==> r is Err && r->Err_0
                is InvalidBase58EncodedData,
            base58check_payload(text@) is Some && signature_payload_ok(
                base58check_payload(text@)->Some_0,
            ) ==> r is Ok,
            base58check_payload(text@) is Some && !signature_payload_ok(
                base58check_payload(text@)->Some_0,
            ) ==> r == Err::<Signature, Error>(Error::InvalidSignatureBytes),
            r is Ok ==> base58check_payload(text@) == Some(
                signature_prefix(r->Ok_0@.0) + r->Ok_0@.1,
            ),
    {
        match from_base58check(text) {
            Some(payload) => Self::from_payload(payload.as_slice()),
            None => Err(Error::InvalidBase58EncodedData { description: String::new() }),
        }
    }
}

} // verus!
