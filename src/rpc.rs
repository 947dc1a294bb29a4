//! Node version models and the request that reads them.
use vstd::prelude::*;
use crate::encoded::{Address, ImplicitAddress};
use crate::error::Error;
use crate::mutez::Mutez;
use crate::natural::Nat;
use crate::operation::{optional_parameters_view, Transaction as TransactionContent};
use crate::parameters::Parameters;
use crate::text::{decimal_value, is_decimal_of, is_nat_text};

verus! {

/// How the node renders script data.
#[derive(Debug, Clone, Copy, PartialEq, Eq, Structural)]
#[allow(non_camel_case_types)]
pub enum UnparsingMode {
    Readable,
    Optimized,
    Optimized_legacy,
}

impl Default for UnparsingMode {
    fn default() -> (r: Self)
        ensures
            r == UnparsingMode::Optimized,
    {
        UnparsingMode::Optimized
    }
}

#[derive(Debug, Clone, Copy, PartialEq, Eq, Structural)]
pub enum AdditionalInfo {
    Release,
    Dev,
}

#[derive(Debug, Clone, PartialEq)]
pub struct Version {
    pub major: i32,
    pub minor: i32,
    pub additional_info: AdditionalInfo,
}

#[derive(Debug, Clone, PartialEq)]
pub struct NetworkVersion {
    pub chain_name: String,
    pub distributed_db_version: u16,
    pub p2p_version: u16,
}

#[derive(Debug, Clone, PartialEq)]
pub struct CommitInfo {
    pub commit_hash: String,
    pub commit_date: String,
}

#[derive(Debug, Clone, PartialEq)]
pub struct VersionInfo {
    pub version: Version,
    pub network_version: NetworkVersion,
    pub commit_info: CommitInfo,
}

/// Where requests go: the node's base URL.
#[derive(Debug, Clone)]
pub struct TezosRpcContext {
    pub node_url: String,
}

/// The path of the version request.
pub fn path() -> (r: &'static str)
    ensures
        r@ == "/version"@,
{
    "/version"
}

/// A request for the node's version, sent by the transport that holds the
/// context.
#[derive(Clone, Copy)]
pub struct RpcRequestBuilder<'a> {
    ctx: &'a TezosRpcContext,
}

impl<'a> RpcRequestBuilder<'a> {
    pub fn new(ctx: &'a TezosRpcContext) -> (r: Self)
        ensures
            r.context() == ctx,
    {
        RpcRequestBuilder { ctx }
    }

    pub closed spec fn context(&self) -> &'a TezosRpcContext {
        self.ctx
    }

    pub fn ctx(&self) -> (r: &'a TezosRpcContext)
        ensures
            r == self.context(),
    {
        self.ctx
    }

    /// The path the request is sent to.
    pub fn path(&self) -> (r: &'static str)
        ensures
            r@ == "/version"@,
    {
        path()
    }
}

/// The request for the node's version.
pub fn get<'a>(ctx: &'a TezosRpcContext) -> (r: RpcRequestBuilder<'a>)
    ensures
        r.context() == ctx,
{
    RpcRequestBuilder::new(ctx)
}

/// A gas amount as the node reports it: its decimal value, or zero where it
/// is missing or not decimal digits.
pub open spec fn reported_amount(value: Option<Seq<char>>) -> nat {
    match value {
        Some(s) => if is_nat_text(s) {
            decimal_value(s)
        } else {
            0
        },
        None => 0,
    }
}

pub open spec fn optional_text(value: Option<String>) -> Option<Seq<char>> {
    match value {
        Some(s) => Some(s@),
        None => None,
    }
}

/// The result of an applied delegation, as far as the estimator reads it.
#[derive(Debug, Clone)]
pub struct DelegationOperationResult {
    pub consumed_gas: Option<String>,
    pub consumed_milligas: Option<String>,
}

fn parse_reported(value: &Option<String>) -> (r: Nat)
    ensures
        r@ == reported_amount(optional_text(*value)),
{
    match value {
        Some(s) => match Nat::from(s.as_str()) {
            Ok(n) => n,
            Err(_) => Nat::from_u64(0),
        },
        None => Nat::from_u64(0),
    }
}

impl DelegationOperationResult {
    pub fn number_of_originated_contracts(&self) -> (r: usize)
        ensures
            r == 0,
    {
        0
    }

    pub fn consumed_gas(&self) -> (r: Nat)
        ensures
            r@ == reported_amount(optional_text(self.consumed_gas)),
    {
        parse_reported(&self.consumed_gas)
    }

    pub fn consumed_milligas(&self) -> (r: Nat)
        ensures
            r@ == reported_amount(optional_text(self.consumed_milligas)),
    {
        parse_reported(&self.consumed_milligas)
    }

    pub fn paid_storage_size_diff(&self) -> (r: Option<Nat>)
        ensures
            r is None,
    {
        None
    }

    pub fn allocated_destination_contract(&self) -> (r: Option<bool>)
        ensures
            r is None,
    {
        None
    }
}

/// A transaction as the node serves it: counter and limits as decimal text.
#[derive(Debug, PartialEq, Eq)]
pub struct Transaction {
    pub source: ImplicitAddress,
    pub fee: Mutez,
    pub counter: String,
    pub gas_limit: String,
    pub storage_limit: String,
    pub amount: Mutez,
    pub destination: Address,
    pub parameters: Option<Parameters>,
}

fn clone_parameters(p: Option<&Parameters>) -> (r: Option<Parameters>)
    ensures
        p is None ==> r is None,
        p is Some ==> r is Some && r->Some_0@ == p->Some_0@,
{
    match p {
        Some(p) => Some(p.clone()),
        None => None,
    }
}

impl Transaction {
    /// The node's form of a transaction content.
    pub fn from_transaction(t: &TransactionContent) -> (r: Transaction)
        ensures
            r.source@ == t@.manager.source,
            r.fee@ == t@.manager.fee,
            is_decimal_of(r.counter@, t@.manager.counter),
            is_decimal_of(r.gas_limit@, t@.manager.gas_limit),
            is_decimal_of(r.storage_limit@, t@.manager.storage_limit),
            r.amount@ == t@.amount,
            r.destination@ == t@.destination,
            optional_parameters_view(r.parameters) == t@.parameters,
    {
        let m = t.manager();
        Transaction {
            source: m.source().clone(),
            fee: m.fee(),
            counter: m.counter().to_string(),
            gas_limit: m.gas_limit().to_string(),
            storage_limit: m.storage_limit().to_string(),
            amount: t.amount(),
            destination: t.destination().clone(),
            parameters: clone_parameters(t.parameters()),
        }
    }

    /// The transaction content; fails where the counter or a limit is not
    /// decimal digits.
    pub fn to_transaction(&self) -> (r: Result<TransactionContent, Error>)
        ensures
            (is_nat_text(self.counter@) && is_nat_text(self.gas_limit@) && is_nat_text(
                self.storage_limit@,
            )) <==> r is Ok,
            r is Ok ==> r->Ok_0@.manager.source == self.source@ && r->Ok_0@.manager.fee
                == self.fee@ && r->Ok_0@.manager.counter == decimal_value(self.counter@)
                && r->Ok_0@.manager.gas_limit == decimal_value(self.gas_limit@)
                && r->Ok_0@.manager.storage_limit == decimal_value(self.storage_limit@)
                && r->Ok_0@.amount == self.amount@ && r->Ok_0@.destination == self.destination@
                && r->Ok_0@.parameters == optional_parameters_view(self.parameters),
            r is Err ==> r == Err::<TransactionContent, Error>(Error::InvalidIntegerString),
    {
        let counter = match Nat::from(self.counter.as_str()) {
            Ok(n) => n,
            Err(e) => {
                return Err(e);
            },
        };
        let gas_limit = match Nat::from(self.gas_limit.as_str()) {
            Ok(n) => n,
            Err(e) => {
                return Err(e);
            },
        };
        let storage_limit = match Nat::from(self.storage_limit.as_str()) {
            Ok(n) => n,
            Err(e) => {
                return Err(e);
            },
        };
        let parameters = match &self.parameters {
            Some(p) => Some(p.clone()),
            None => None,
        };
        Ok(
            TransactionContent::new(
                self.source.clone(),
                self.fee.clone(),
                counter,
                gas_limit,
                storage_limit,
                self.amount.clone(),
                self.destination.clone(),
                parameters,
            ),
        )
    }
}

} // verus!
