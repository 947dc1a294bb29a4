//! Manager operation contents: their forged bytes, and reading them back.
use vstd::prelude::*;
use crate::coder::NaturalBytesCoder;
use crate::consumable::ConsumableBytes;
use crate::encoded::{
    address_wf, curve_of_tag, curve_tag, destination_error, destination_wf, forged_address, forged_destination,
    forged_public_key, parse_address, parse_destination, parse_public_key, public_key_length,
    public_key_wf, Address, AddressView, DestinationView, ImplicitAddress, PublicKey,
    PublicKeyView,
};
use crate::parameters::{
    append_bytes, forged_optional_parameters, lemma_parameters_round_trip, parameters_wf,
    parse_optional_parameters, Parameters, ParametersView,
};
use crate::error::Error;
use crate::mutez::{mutez_error, parse_mutez, Mutez, MUTEZ_MAX};
use crate::natural::Nat;
use crate::zarith::{lemma_nat_round_trip, zarith_nat, zarith_nat_decode};

verus! {

pub const REVEAL_TAG: u8 = 107;
pub const TRANSACTION_TAG: u8 = 108;
pub const ORIGINATION_TAG: u8 = 109;
pub const DELEGATION_TAG: u8 = 110;

/// The leading byte of each kind of operation content.
#[derive(Debug, Clone, Copy, PartialEq, Eq, Structural)]
pub enum OperationContentTag {
    Reveal,
    Transaction,
    Origination,
    Delegation,
}

pub open spec fn tag_value(t: OperationContentTag) -> u8 {
    match t {
        OperationContentTag::Reveal => REVEAL_TAG,
        OperationContentTag::Transaction => TRANSACTION_TAG,
        OperationContentTag::Origination => ORIGINATION_TAG,
        OperationContentTag::Delegation => DELEGATION_TAG,
    }
}

impl OperationContentTag {
    pub fn value(&self) -> (r: u8)
        ensures
            r == tag_value(*self),
    {
        match self {
            OperationContentTag::Reveal => REVEAL_TAG,
            OperationContentTag::Transaction => TRANSACTION_TAG,
            OperationContentTag::Origination => ORIGINATION_TAG,
            OperationContentTag::Delegation => DELEGATION_TAG,
        }
    }

    pub fn from_value(value: u8) -> (r: Option<OperationContentTag>)
        ensures
            r is Some <==> 107 <= value <= 110,
            r is Some ==> tag_value(r->Some_0) == value,
    {
        if value == REVEAL_TAG {
            Some(OperationContentTag::Reveal)
        } else if value == TRANSACTION_TAG {
            Some(OperationContentTag::Transaction)
        } else if value == ORIGINATION_TAG {
            Some(OperationContentTag::Origination)
        } else if value == DELEGATION_TAG {
            Some(OperationContentTag::Delegation)
        } else {
            None
        }
    }
}

/// Reads a natural from the front of `s`; gives it and what follows.
pub open spec fn parse_nat_field(s: Seq<u8>) -> Option<(nat, Seq<u8>)> {
    match zarith_nat_decode(s) {
        Some((v, n)) => Some((v, s.skip(n as int))),
        None => None,
    }
}

/// The fields that every manager operation carries.
pub struct ManagerView {
    pub source: AddressView,
    pub fee: nat,
    pub counter: nat,
    pub gas_limit: nat,
    pub storage_limit: nat,
}

pub open spec fn manager_wf(m: ManagerView) -> bool {
    address_wf(m.source) && m.fee <= MUTEZ_MAX
}

/// Source, fee, counter, gas limit and storage limit, in this order.
pub open spec fn forged_manager(m: ManagerView) -> Seq<u8> {
    forged_address(m.source) + zarith_nat(m.fee) + zarith_nat(m.counter) + zarith_nat(
        m.gas_limit,
    ) + zarith_nat(m.storage_limit)
}

pub open spec fn parse_manager(s: Seq<u8>) -> Option<(ManagerView, Seq<u8>)> {
    match parse_address(s) {
        None => None,
        Some((source, r1)) => match parse_mutez(r1) {
            None => None,
            Some((fee, r2)) => match parse_nat_field(r2) {
                None => None,
                Some((counter, r3)) => match parse_nat_field(r3) {
                    None => None,
                    Some((gas_limit, r4)) => match parse_nat_field(r4) {
                        None => None,
                        Some((storage_limit, r5)) => Some(
                            (ManagerView { source, fee, counter, gas_limit, storage_limit }, r5),
                        ),
                    },
                },
            },
        },
    }
}

/// Why the manager fields cannot be read from the front of `s`: the error of
/// the first field that does not read.
pub open spec fn manager_error(s: Seq<u8>) -> Error {
    match parse_address(s) {
        None => Error::InvalidAddress,
        Some((_, r1)) => match parse_mutez(r1) {
            None => mutez_error(r1),
            Some(_) => Error::InvalidNaturalBytes,
        },
    }
}

pub struct RevealView {
    pub manager: ManagerView,
    pub public_key: PublicKeyView,
}

pub struct DelegationView {
    pub manager: ManagerView,
    pub delegate: Option<AddressView>,
}

pub struct TransactionView {
    pub manager: ManagerView,
    pub amount: nat,
    pub destination: DestinationView,
    pub parameters: Option<ParametersView>,
}

/// What an operation content is.
pub enum ContentView {
    Reveal(RevealView),
    Transaction(TransactionView),
    Delegation(DelegationView),
}

pub open spec fn content_wf(c: ContentView) -> bool {
    match c {
        ContentView::Reveal(r) => manager_wf(r.manager) && public_key_wf(r.public_key),
        ContentView::Transaction(t) => manager_wf(t.manager) && t.amount <= MUTEZ_MAX
            && destination_wf(t.destination) && match t.parameters {
            Some(p) => parameters_wf(p),
            None => true,
        },
        ContentView::Delegation(d) => manager_wf(d.manager) && match d.delegate {
            Some(a) => address_wf(a),
            None => true,
        },
    }
}

/// An optional address: `255` and the address, or `0` for none.
pub open spec fn forged_optional_address(a: Option<AddressView>) -> Seq<u8> {
    match a {
        Some(a) => seq![255u8] + forged_address(a),
        None => seq![0u8],
    }
}

pub open spec fn parse_optional_address(s: Seq<u8>) -> Option<(Option<AddressView>, Seq<u8>)> {
    if s.len() == 0 {
        None
    } else if s[0] == 0 {
        Some((None, s.drop_first()))
    } else if s[0] == 255 {
        match parse_address(s.drop_first()) {
            Some((a, rest)) => Some((Some(a), rest)),
            None => None,
        }
    } else {
        None
    }
}

/// The forged bytes of a content: its tag, the manager fields, then the
/// fields of its kind.
pub open spec fn forged_content(c: ContentView) -> Seq<u8> {
    match c {
        ContentView::Reveal(r) => seq![REVEAL_TAG] + forged_manager(r.manager) + forged_public_key(
            r.public_key,
        ),
        ContentView::Transaction(t) => seq![TRANSACTION_TAG] + forged_manager(t.manager)
            + zarith_nat(t.amount) + forged_destination(t.destination)
            + forged_optional_parameters(t.parameters),
        ContentView::Delegation(d) => seq![DELEGATION_TAG] + forged_manager(d.manager)
            + forged_optional_address(d.delegate),
    }
}

/// Reads a content from the front of `s`, by its tag; gives it and what
/// follows.
pub open spec fn parse_content(s: Seq<u8>) -> Option<(ContentView, Seq<u8>)> {
    if s.len() == 0 {
        None
    } else if s[0] == REVEAL_TAG {
        match parse_manager(s.drop_first()) {
            None => None,
            Some((manager, r1)) => match parse_public_key(r1) {
                None => None,
                Some((public_key, r2)) => Some(
                    (ContentView::Reveal(RevealView { manager, public_key }), r2),
                ),
            },
        }
    } else if s[0] == TRANSACTION_TAG {
        match parse_manager(s.drop_first()) {
            None => None,
            Some((manager, r1)) => match parse_mutez(r1) {
                None => None,
                Some((amount, r2)) => match parse_destination(r2) {
                    None => None,
                    Some((destination, r3)) => match parse_optional_parameters(r3) {
                        None => None,
                        Some((parameters, r4)) => Some(
                            (
                                ContentView::Transaction(
                                    TransactionView { manager, amount, destination, parameters },
                                ),
                                r4,
                            ),
                        ),
                    },
                },
            },
        }
    } else if s[0] == DELEGATION_TAG {
        match parse_manager(s.drop_first()) {
            None => None,
            Some((manager, r1)) => match parse_optional_address(r1) {
                None => None,
                Some((delegate, r2)) => Some(
                    (ContentView::Delegation(DelegationView { manager, delegate }), r2),
                ),
            },
        }
    } else {
        None
    }
}

/// Why a content with a supported tag cannot be read from the front of `s`:
/// the error of the first field that does not read.
pub open spec fn content_error(s: Seq<u8>) -> Error {
    match parse_manager(s.drop_first()) {
        None => manager_error(s.drop_first()),
        Some((_, r1)) => if s[0] == REVEAL_TAG {
            Error::InvalidPublicKeyBytes
        } else if s[0] == TRANSACTION_TAG {
            match parse_mutez(r1) {
                None => mutez_error(r1),
                Some((_, r2)) => match parse_destination(r2) {
                    None => destination_error(r2),
                    Some(_) => Error::InvalidBytes,
                },
            }
        } else if r1.len() > 0 && r1[0] == 255 {
            Error::InvalidAddress
        } else {
            Error::InvalidBytes
        },
    }
}

proof fn lemma_address_round_trip(a: AddressView, rest: Seq<u8>)
    requires
        address_wf(a),
    ensures
        parse_address(forged_address(a) + rest) == Some((a, rest)),
{
    let s = forged_address(a) + rest;
    assert(s[0] == curve_tag(a.0));
    assert(curve_of_tag(curve_tag(a.0)) == a.0);
    assert(s.subrange(1, 21) =~= a.1);
    assert(s.skip(21) =~= rest);
}

proof fn lemma_public_key_round_trip(k: PublicKeyView, rest: Seq<u8>)
    requires
        public_key_wf(k),
    ensures
        parse_public_key(forged_public_key(k) + rest) == Some((k, rest)),
{
    let s = forged_public_key(k) + rest;
    let n = 1 + public_key_length(k.0);
    assert(s[0] == curve_tag(k.0));
    assert(curve_of_tag(curve_tag(k.0)) == k.0);
    assert(s.subrange(1, n as int) =~= k.1);
    assert(s.skip(n as int) =~= rest);
}

proof fn lemma_nat_field_round_trip(v: nat, rest: Seq<u8>)
    ensures
        parse_nat_field(zarith_nat(v) + rest) == Some((v, rest)),
        v <= MUTEZ_MAX ==> parse_mutez(zarith_nat(v) + rest) == Some((v, rest)),
{
    lemma_nat_round_trip(v, rest);
    assert((zarith_nat(v) + rest).skip(zarith_nat(v).len() as int) =~= rest);
}

proof fn lemma_destination_round_trip(d: DestinationView, rest: Seq<u8>)
    requires
        destination_wf(d),
    ensures
        parse_destination(forged_destination(d) + rest) == Some((d, rest)),
{
    let s = forged_destination(d) + rest;
    match d {
        DestinationView::Implicit(a) => {
            assert(s.drop_first() =~= forged_address(a) + rest);
            lemma_address_round_trip(a, rest);
        },
        DestinationView::Originated(h) => {
            assert(s[21] == 0);
            assert(s.subrange(1, 21) =~= h);
            assert(s.skip(22) =~= rest);
        },
    }
}

proof fn lemma_manager_round_trip(m: ManagerView, rest: Seq<u8>)
    requires
        manager_wf(m),
    ensures
        parse_manager(forged_manager(m) + rest) == Some((m, rest)),
{
    let r5 = rest;
    let r4 = zarith_nat(m.storage_limit) + r5;
    let r3 = zarith_nat(m.gas_limit) + r4;
    let r2 = zarith_nat(m.counter) + r3;
    let r1 = zarith_nat(m.fee) + r2;
    assert(forged_manager(m) + rest =~= forged_address(m.source) + r1);
    lemma_address_round_trip(m.source, r1);
    lemma_nat_field_round_trip(m.fee, r2);
    lemma_nat_field_round_trip(m.counter, r3);
    lemma_nat_field_round_trip(m.gas_limit, r4);
    lemma_nat_field_round_trip(m.storage_limit, r5);
}

proof fn lemma_reveal_round_trip(r: RevealView, rest: Seq<u8>)
    requires
        content_wf(ContentView::Reveal(r)),
    ensures
        parse_content(forged_content(ContentView::Reveal(r)) + rest) == Some(
            (ContentView::Reveal(r), rest),
        ),
{
    let tail = forged_public_key(r.public_key) + rest;
    let s = forged_content(ContentView::Reveal(r)) + rest;
    assert(s.drop_first() =~= forged_manager(r.manager) + tail);
    lemma_manager_round_trip(r.manager, tail);
    lemma_public_key_round_trip(r.public_key, rest);
}

proof fn lemma_transaction_round_trip(t: TransactionView, rest: Seq<u8>)
    requires
        content_wf(ContentView::Transaction(t)),
    ensures
        parse_content(forged_content(ContentView::Transaction(t)) + rest) == Some(
            (ContentView::Transaction(t), rest),
        ),
{
    let r4 = rest;
    let r3 = forged_optional_parameters(t.parameters) + r4;
    let r2 = forged_destination(t.destination) + r3;
    let r1 = zarith_nat(t.amount) + r2;
    let s = forged_content(ContentView::Transaction(t)) + rest;
    assert(s.drop_first() =~= forged_manager(t.manager) + r1);
    lemma_manager_round_trip(t.manager, r1);
    lemma_nat_field_round_trip(t.amount, r2);
    lemma_destination_round_trip(t.destination, r3);
    lemma_parameters_round_trip(t.parameters, r4);
}

proof fn lemma_delegation_round_trip(d: DelegationView, rest: Seq<u8>)
    requires
        content_wf(ContentView::Delegation(d)),
    ensures
        parse_content(forged_content(ContentView::Delegation(d)) + rest) == Some(
            (ContentView::Delegation(d), rest),
        ),
{
    let tail = forged_optional_address(d.delegate) + rest;
    let s = forged_content(ContentView::Delegation(d)) + rest;
    assert(s.drop_first() =~= forged_manager(d.manager) + tail);
    lemma_manager_round_trip(d.manager, tail);
    match d.delegate {
        Some(a) => {
            assert(tail.drop_first() =~= forged_address(a) + rest);
            lemma_address_round_trip(a, rest);
        },
        None => {
            assert(tail.drop_first() =~= rest);
        },
    }
}

/// Reading back the forged bytes of a content, with any bytes after them,
/// gives the same content, field for field, and leaves exactly those bytes.
pub proof fn lemma_content_round_trip(c: ContentView, rest: Seq<u8>)
    requires
        content_wf(c),
    ensures
        parse_content(forged_content(c) + rest) == Some((c, rest)),
{
    match c {
        ContentView::Reveal(r) => lemma_reveal_round_trip(r, rest),
        ContentView::Transaction(t) => lemma_transaction_round_trip(t, rest),
        ContentView::Delegation(d) => lemma_delegation_round_trip(d, rest),
    }
}

/// A stream whose first byte is no supported tag reads as nothing; one that
/// reads starts with the tag of the kind it reads as.
pub proof fn lemma_tag_dispatch(s: Seq<u8>)
    ensures
        s.len() > 0 && s[0] != REVEAL_TAG && s[0] != TRANSACTION_TAG && s[0] != DELEGATION_TAG
            ==> parse_content(s) is None,
        parse_content(s) is Some ==> (parse_content(s)->Some_0.0 is Reveal <==> s[0]
            == REVEAL_TAG) && (parse_content(s)->Some_0.0 is Transaction <==> s[0]
            == TRANSACTION_TAG) && (parse_content(s)->Some_0.0 is Delegation <==> s[0]
            == DELEGATION_TAG),
{
}

/// A delegation that names a delegate forges to more bytes than the same
/// delegation without one, and each reads back as it was.
pub proof fn lemma_delegate_presence(m: ManagerView, a: AddressView)
    requires
        manager_wf(m),
        address_wf(a),
    ensures
        forged_content(ContentView::Delegation(DelegationView { manager: m, delegate: Some(a) })).len()
            > forged_content(ContentView::Delegation(DelegationView { manager: m, delegate: None })).len(),
        parse_content(forged_content(ContentView::Delegation(DelegationView { manager: m, delegate: Some(a) })))
            == Some((ContentView::Delegation(DelegationView { manager: m, delegate: Some(a) }), Seq::<u8>::empty())),
        parse_content(forged_content(ContentView::Delegation(DelegationView { manager: m, delegate: None })))
            == Some((ContentView::Delegation(DelegationView { manager: m, delegate: None }), Seq::<u8>::empty())),
{
    let with = ContentView::Delegation(DelegationView { manager: m, delegate: Some(a) });
    let without = ContentView::Delegation(DelegationView { manager: m, delegate: None });
    lemma_content_round_trip(with, Seq::empty());
    lemma_content_round_trip(without, Seq::empty());
    assert(forged_content(with) + Seq::<u8>::empty() =~= forged_content(with));
    assert(forged_content(without) + Seq::<u8>::empty() =~= forged_content(without));
}

/// The fields shared by every manager operation.
#[derive(Debug, PartialEq, Eq)]
pub struct ManagerFields {
    source: ImplicitAddress,
    fee: Mutez,
    counter: Nat,
    gas_limit: Nat,
    storage_limit: Nat,
}

impl View for ManagerFields {
    type V = ManagerView;

    closed spec fn view(&self) -> ManagerView {
        ManagerView {
            source: self.source@,
            fee: self.fee@,
            counter: self.counter@,
            gas_limit: self.gas_limit@,
            storage_limit: self.storage_limit@,
        }
    }
}

impl Clone for ManagerFields {
    fn clone(&self) -> (r: Self)
        ensures
            r@ == self@,
    {
        ManagerFields {
            source: self.source.clone(),
            fee: self.fee.clone(),
            counter: self.counter.clone(),
            gas_limit: self.gas_limit.clone(),
            storage_limit: self.storage_limit.clone(),
        }
    }
}

impl ManagerFields {
    pub fn new(
        source: ImplicitAddress,
        fee: Mutez,
        counter: Nat,
        gas_limit: Nat,
        storage_limit: Nat,
    ) -> (r: ManagerFields)
        ensures
            r@ == (ManagerView {
                source: source@,
                fee: fee@,
                counter: counter@,
                gas_limit: gas_limit@,
                storage_limit: storage_limit@,
            }),
    {
        ManagerFields { source, fee, counter, gas_limit, storage_limit }
    }

    pub fn source(&self) -> (r: &ImplicitAddress)
        ensures
            r@ == self@.source,
    {
        &self.source
    }

    pub fn fee(&self) -> (r: Mutez)
        ensures
            r@ == self@.fee,
    {
        self.fee.clone()
    }

    pub fn counter(&self) -> (r: &Nat)
        ensures
            r@ == self@.counter,
    {
        &self.counter
    }

    pub fn gas_limit(&self) -> (r: &Nat)
        ensures
            r@ == self@.gas_limit,
    {
        &self.gas_limit
    }

    pub fn storage_limit(&self) -> (r: &Nat)
        ensures
            r@ == self@.storage_limit,
    {
        &self.storage_limit
    }

    /// Appends the forged fields.
    pub fn forge_into(&self, out: &mut Vec<u8>)
        ensures
            final(out)@ == old(out)@ + forged_manager(self@),
            manager_wf(self@),
    {
        append_bytes(out, &self.source.to_bytes());
        append_bytes(out, &self.fee.to_bytes());
        append_bytes(out, &NaturalBytesCoder::encode_unsigned(&self.counter));
        append_bytes(out, &NaturalBytesCoder::encode_unsigned(&self.gas_limit));
        append_bytes(out, &NaturalBytesCoder::encode_unsigned(&self.storage_limit));
        proof {
            assert(final(out)@ =~= old(out)@ + forged_manager(self@));
        }
    }

    /// Reads the fields from the front of `bytes`.
    pub fn from_consumable_bytes(bytes: &mut ConsumableBytes) -> (r: Result<ManagerFields, Error>)
        ensures
            parse_manager(old(bytes)@) is Some ==> r is Ok && r->Ok_0@ == parse_manager(
                old(bytes)@,
            )->Some_0.0 && final(bytes)@ == parse_manager(old(bytes)@)->Some_0.1,
            parse_manager(old(bytes)@) is None ==> r == Err::<ManagerFields, Error>(
                manager_error(old(bytes)@),
            ),
    {
        let source = match ImplicitAddress::from_consumable_bytes(bytes) {
            Ok(v) => v,
            Err(e) => {
                return Err(e);
            },
        };
        let fee = match Mutez::from_consumable_bytes(bytes) {
            Ok(v) => v,
            Err(e) => {
                return Err(e);
            },
        };
        let counter = match Nat::from_consumable_bytes(bytes) {
            Ok(v) => v,
            Err(e) => {
                return Err(e);
            },
        };
        let gas_limit = match Nat::from_consumable_bytes(bytes) {
            Ok(v) => v,
            Err(e) => {
                return Err(e);
            },
        };
        let storage_limit = match Nat::from_consumable_bytes(bytes) {
            Ok(v) => v,
            Err(e) => {
                return Err(e);
            },
        };
        Ok(ManagerFields { source, fee, counter, gas_limit, storage_limit })
    }
}

/// Reveals the public key of the source account.
#[derive(Debug, PartialEq, Eq)]
pub struct Reveal {
    manager: ManagerFields,
    public_key: PublicKey,
}

impl View for Reveal {
    type V = RevealView;

    closed spec fn view(&self) -> RevealView {
        RevealView { manager: self.manager@, public_key: self.public_key@ }
    }
}

impl Clone for Reveal {
    fn clone(&self) -> (r: Self)
        ensures
            r@ == self@,
    {
        Reveal { manager: self.manager.clone(), public_key: self.public_key.clone() }
    }
}

impl Reveal {
    pub fn new(
        source: ImplicitAddress,
        fee: Mutez,
        counter: Nat,
        gas_limit: Nat,
        storage_limit: Nat,
        public_key: PublicKey,
    ) -> (r: Reveal)
        ensures
            r@ == (RevealView {
                manager: ManagerView {
                    source: source@,
                    fee: fee@,
                    counter: counter@,
                    gas_limit: gas_limit@,
                    storage_limit: storage_limit@,
                },
                public_key: public_key@,
            }),
    {
        Reveal {
            manager: ManagerFields::new(source, fee, counter, gas_limit, storage_limit),
            public_key,
        }
    }

    pub fn public_key(&self) -> (r: &PublicKey)
        ensures
            r@ == self@.public_key,
    {
        &self.public_key
    }

    pub fn manager(&self) -> (r: &ManagerFields)
        ensures
            r@ == self@.manager,
    {
        &self.manager
    }

    pub fn tag() -> (r: u8)
        ensures
            r == REVEAL_TAG,
    {
        REVEAL_TAG
    }

    pub fn source(&self) -> (r: &ImplicitAddress)
        ensures
            r@ == self@.manager.source,
    {
        self.manager.source()
    }

    pub fn fee(&self) -> (r: Mutez)
        ensures
            r@ == self@.manager.fee,
    {
        self.manager.fee()
    }

    pub fn counter(&self) -> (r: &Nat)
        ensures
            r@ == self@.manager.counter,
    {
        self.manager.counter()
    }

    pub fn gas_limit(&self) -> (r: &Nat)
        ensures
            r@ == self@.manager.gas_limit,
    {
        self.manager.gas_limit()
    }

    pub fn storage_limit(&self) -> (r: &Nat)
        ensures
            r@ == self@.manager.storage_limit,
    {
        self.manager.storage_limit()
    }
}

/// Sets or withdraws the delegate of the source account.
#[derive(Debug, PartialEq, Eq)]
pub struct Delegation {
    manager: ManagerFields,
    delegate: Option<ImplicitAddress>,
}

pub open spec fn optional_address_view(a: Option<ImplicitAddress>) -> Option<AddressView> {
    match a {
        Some(a) => Some(a@),
        None => None,
    }
}

impl View for Delegation {
    type V = DelegationView;

    closed spec fn view(&self) -> DelegationView {
        DelegationView {
            manager: self.manager@,
            delegate: optional_address_view(self.delegate),
        }
    }
}

impl Clone for Delegation {
    fn clone(&self) -> (r: Self)
        ensures
            r@ == self@,
    {
        let delegate = match &self.delegate {
            Some(a) => Some(a.clone()),
            None => None,
        };
        Delegation { manager: self.manager.clone(), delegate }
    }
}

impl Delegation {
    pub fn new(
        source: ImplicitAddress,
        fee: Mutez,
        counter: Nat,
        gas_limit: Nat,
        storage_limit: Nat,
        delegate: Option<ImplicitAddress>,
    ) -> (r: Delegation)
        ensures
            r@ == (DelegationView {
                manager: ManagerView {
                    source: source@,
                    fee: fee@,
                    counter: counter@,
                    gas_limit: gas_limit@,
                    storage_limit: storage_limit@,
                },
                delegate: optional_address_view(delegate),
            }),
    {
        Delegation {
            manager: ManagerFields::new(source, fee, counter, gas_limit, storage_limit),
            delegate,
        }
    }

    pub fn delegate(&self) -> (r: Option<&ImplicitAddress>)
        ensures
            self@.delegate is None ==> r is None,
            self@.delegate is Some ==> r is Some && r->Some_0@ == self@.delegate->Some_0,
    {
        match &self.delegate {
            Some(a) => Some(a),
            None => None,
        }
    }

    pub fn manager(&self) -> (r: &ManagerFields)
        ensures
            r@ == self@.manager,
    {
        &self.manager
    }

    pub fn tag() -> (r: u8)
        ensures
            r == DELEGATION_TAG,
    {
        DELEGATION_TAG
    }

    pub fn source(&self) -> (r: &ImplicitAddress)
        ensures
            r@ == self@.manager.source,
    {
        self.manager.source()
    }

    pub fn fee(&self) -> (r: Mutez)
        ensures
            r@ == self@.manager.fee,
    {
        self.manager.fee()
    }

    pub fn counter(&self) -> (r: &Nat)
        ensures
            r@ == self@.manager.counter,
    {
        self.manager.counter()
    }

    pub fn gas_limit(&self) -> (r: &Nat)
        ensures
            r@ == self@.manager.gas_limit,
    {
        self.manager.gas_limit()
    }

    pub fn storage_limit(&self) -> (r: &Nat)
        ensures
            r@ == self@.manager.storage_limit,
    {
        self.manager.storage_limit()
    }
}

/// Transfers an amount to a destination, possibly calling a contract.
#[derive(Debug, PartialEq, Eq)]
pub struct Transaction {
    manager: ManagerFields,
    amount: Mutez,
    destination: Address,
    parameters: Option<Parameters>,
}

pub open spec fn optional_parameters_view(p: Option<Parameters>) -> Option<ParametersView> {
    match p {
        Some(p) => Some(p@),
        None => None,
    }
}

impl View for Transaction {
    type V = TransactionView;

    closed spec fn view(&self) -> TransactionView {
        TransactionView {
            manager: self.manager@,
            amount: self.amount@,
            destination: self.destination@,
            parameters: optional_parameters_view(self.parameters),
        }
    }
}

impl Clone for Transaction {
    fn clone(&self) -> (r: Self)
        ensures
            r@ == self@,
    {
        let parameters = match &self.parameters {
            Some(p) => Some(p.clone()),
            None => None,
        };
        Transaction {
            manager: self.manager.clone(),
            amount: self.amount.clone(),
            destination: self.destination.clone(),
            parameters,
        }
    }
}

impl Transaction {
    pub fn new(
        source: ImplicitAddress,
        fee: Mutez,
        counter: Nat,
        gas_limit: Nat,
        storage_limit: Nat,
        amount: Mutez,
        destination: Address,
        parameters: Option<Parameters>,
    ) -> (r: Transaction)
        ensures
            r@ == (TransactionView {
                manager: ManagerView {
                    source: source@,
                    fee: fee@,
                    counter: counter@,
                    gas_limit: gas_limit@,
                    storage_limit: storage_limit@,
                },
                amount: amount@,
                destination: destination@,
                parameters: optional_parameters_view(parameters),
            }),
    {
        Transaction {
            manager: ManagerFields::new(source, fee, counter, gas_limit, storage_limit),
            amount,
            destination,
            parameters,
        }
    }

    pub fn tag() -> (r: u8)
        ensures
            r == TRANSACTION_TAG,
    {
        TRANSACTION_TAG
    }

    pub fn manager(&self) -> (r: &ManagerFields)
        ensures
            r@ == self@.manager,
    {
        &self.manager
    }

    pub fn amount(&self) -> (r: Mutez)
        ensures
            r@ == self@.amount,
    {
        self.amount.clone()
    }

    pub fn destination(&self) -> (r: &Address)
        ensures
            r@ == self@.destination,
    {
        &self.destination
    }

    pub fn parameters(&self) -> (r: Option<&Parameters>)
        ensures
            self@.parameters is None ==> r is None,
            self@.parameters is Some ==> r is Some && r->Some_0@ == self@.parameters->Some_0,
    {
        match &self.parameters {
            Some(p) => Some(p),
            None => None,
        }
    }
}

/// One operation content, of one of the supported kinds.
#[derive(Debug, PartialEq, Eq)]
pub enum OperationContent {
    Reveal(Reveal),
    Transaction(Transaction),
    Delegation(Delegation),
}

impl View for OperationContent {
    type V = ContentView;

    open spec fn view(&self) -> ContentView {
        match self {
            OperationContent::Reveal(r) => ContentView::Reveal(r@),
            OperationContent::Transaction(t) => ContentView::Transaction(t@),
            OperationContent::Delegation(d) => ContentView::Delegation(d@),
        }
    }
}

impl OperationContent {
    pub fn tag(&self) -> (r: OperationContentTag)
        ensures
            self is Reveal ==> r == OperationContentTag::Reveal,
            self is Transaction ==> r == OperationContentTag::Transaction,
            self is Delegation ==> r == OperationContentTag::Delegation,
    {
        match self {
            OperationContent::Reveal(_) => OperationContentTag::Reveal,
            OperationContent::Transaction(_) => OperationContentTag::Transaction,
            OperationContent::Delegation(_) => OperationContentTag::Delegation,
        }
    }

    /// The forged bytes: the tag, the manager fields, then the fields of the
    /// kind.
    pub fn forge(&self) -> (r: Vec<u8>)
        ensures
            r@ == forged_content(self@),
            content_wf(self@),
    {
        match self {
            OperationContent::Reveal(op) => {
                let mut out: Vec<u8> = vec![REVEAL_TAG];
                op.manager.forge_into(&mut out);
                append_bytes(&mut out, &op.public_key.to_bytes());
                proof {
                    assert(out@ =~= forged_content(self@));
                }
                out
            },
            OperationContent::Transaction(op) => {
                let mut out: Vec<u8> = vec![TRANSACTION_TAG];
                op.manager.forge_into(&mut out);
                append_bytes(&mut out, &op.amount.to_bytes());
                append_bytes(&mut out, &op.destination.to_bytes());
                match &op.parameters {
                    Some(p) => {
                        out.push(255u8);
                        p.forge_into(&mut out);
                    },
                    None => {
                        out.push(0u8);
                    },
                }
                proof {
                    assert(out@ =~= forged_content(self@));
                }
                out
            },
            OperationContent::Delegation(op) => {
                let mut out: Vec<u8> = vec![DELEGATION_TAG];
                op.manager.forge_into(&mut out);
                match &op.delegate {
                    Some(a) => {
                        out.push(255u8);
                        append_bytes(&mut out, &a.to_bytes());
                    },
                    None => {
                        out.push(0u8);
                    },
                }
                proof {
                    assert(out@ =~= forged_content(self@));
                }
                out
            },
        }
    }

    /// Reads one content from the front of `bytes`, dispatching on its tag.
    pub fn from_consumable_bytes(bytes: &mut ConsumableBytes) -> (r: Result<
        OperationContent,
        Error,
    >)
        ensures
            parse_content(old(bytes)@) is Some ==> r is Ok && r->Ok_0@ == parse_content(
                old(bytes)@,
            )->Some_0.0 && final(bytes)@ == parse_content(old(bytes)@)->Some_0.1,
            parse_content(old(bytes)@) is None ==> r is Err,
            parse_content(old(bytes)@) is None && old(bytes)@.len() > 0 && (old(bytes)@[0]
                == REVEAL_TAG || old(bytes)@[0] == TRANSACTION_TAG || old(bytes)@[0]
                == DELEGATION_TAG) ==> r == Err::<OperationContent, Error>(
                content_error(old(bytes)@),
            ),
            old(bytes)@.len() == 0 ==> r == Err::<OperationContent, Error>(Error::InvalidBytes),
            old(bytes)@.len() > 0 && old(bytes)@[0] != REVEAL_TAG && old(bytes)@[0]
                != TRANSACTION_TAG && old(bytes)@[0] != DELEGATION_TAG ==> r == Err::<
                OperationContent,
                Error,
            >(
                Error::UnsupportedOperationKind,
            ),
    {
        let ghost s = bytes@;
        let tag = match bytes.consume_first() {
            Ok(t) => t,
            Err(e) => {
                return Err(e);
            },
        };
        if tag == REVEAL_TAG {
            let manager = match ManagerFields::from_consumable_bytes(bytes) {
                Ok(v) => v,
                Err(e) => {
                    return Err(e);
                },
            };
            let public_key = match PublicKey::from_consumable_bytes(bytes) {
                Ok(v) => v,
                Err(e) => {
                    return Err(e);
                },
            };
            Ok(OperationContent::Reveal(Reveal { manager, public_key }))
        } else if tag == TRANSACTION_TAG {
            let manager = match ManagerFields::from_consumable_bytes(bytes) {
                Ok(v) => v,
                Err(e) => {
                    return Err(e);
                },
            };
            let amount = match Mutez::from_consumable_bytes(bytes) {
                Ok(v) => v,
                Err(e) => {
                    return Err(e);
                },
            };
            let destination = match Address::from_consumable_bytes(bytes) {
                Ok(v) => v,
                Err(e) => {
                    return Err(e);
                },
            };
            let marker = match bytes.consume_first() {
                Ok(m) => m,
                Err(e) => {
                    return Err(e);
                },
            };
            let parameters = if marker == 0 {
                None
            } else if marker == 255 {
                match Parameters::from_consumable_bytes(bytes) {
                    Ok(p) => Some(p),
                    Err(e) => {
                        return Err(e);
                    },
                }
            } else {
                return Err(Error::InvalidBytes);
            };
            Ok(
                OperationContent::Transaction(
                    Transaction { manager, amount, destination, parameters },
                ),
            )
        } else if tag == DELEGATION_TAG {
            let manager = match ManagerFields::from_consumable_bytes(bytes) {
                Ok(v) => v,
                Err(e) => {
                    return Err(e);
                },
            };
            let ghost r1 = bytes@;
            let marker = match bytes.consume_first() {
                Ok(m) => m,
                Err(e) => {
                    return Err(e);
                },
            };
            if marker == 0 {
                Ok(OperationContent::Delegation(Delegation { manager, delegate: None }))
            } else if marker == 255 {
                let delegate = match ImplicitAddress::from_consumable_bytes(bytes) {
                    Ok(v) => v,
                    Err(e) => {
                        return Err(e);
                    },
                };
                Ok(OperationContent::Delegation(Delegation { manager, delegate: Some(delegate) }))
            } else {
                Err(Error::InvalidBytes)
            }
        } else {
            Err(Error::UnsupportedOperationKind)
        }
    }

    /// Reads one content from the front of `bytes`; bytes after it are left
    /// alone.
    pub fn from_bytes(bytes: &[u8]) -> (r: Result<OperationContent, Error>)
        ensures
            parse_content(bytes@) is Some ==> r is Ok && r->Ok_0@ == parse_content(
                bytes@,
            )->Some_0.0,
            parse_content(bytes@) is None ==> r is Err,
            parse_content(bytes@) is None && bytes@.len() > 0 && (bytes@[0] == REVEAL_TAG
                || bytes@[0] == TRANSACTION_TAG || bytes@[0] == DELEGATION_TAG) ==> r == Err::<
                OperationContent,
                Error,
            >(content_error(bytes@)),
            bytes@.len() == 0 ==> r == Err::<OperationContent, Error>(Error::InvalidBytes),
            bytes@.len() > 0 && bytes@[0] != REVEAL_TAG && bytes@[0] != TRANSACTION_TAG
                && bytes@[0] != DELEGATION_TAG ==> r == Err::<OperationContent, Error>(
                Error::UnsupportedOperationKind,
            ),
    {
        let mut cs = ConsumableBytes::new(bytes);
        Self::from_consumable_bytes(&mut cs)
    }
}

} // verus!
