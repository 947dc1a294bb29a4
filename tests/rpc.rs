use tezos_core::encoded::{Address, Curve, ImplicitAddress};
use tezos_core::error::Error;
use tezos_core::mutez::Mutez;
use tezos_core::rpc::Transaction as RpcTransaction;
use tezos_core::natural::Nat;
use tezos_core::rpc::{
    get, path, AdditionalInfo, CommitInfo, DelegationOperationResult, NetworkVersion,
    RpcRequestBuilder, TezosRpcContext, UnparsingMode, Version, VersionInfo,
};

#[test]
fn version_request_path() {
    let ctx = TezosRpcContext { node_url: "http://localhost:8732".to_string() };
    let builder = get(&ctx);
    assert_eq!(builder.path(), "/version");
    assert_eq!(path(), "/version");
    assert_eq!(RpcRequestBuilder::new(&ctx).ctx().node_url, "http://localhost:8732");
}

#[test]
fn unparsing_mode_default() {
    assert_eq!(UnparsingMode::default(), UnparsingMode::Optimized);
}

#[test]
fn version_info_fields() {
    let info = VersionInfo {
        version: Version { major: 15, minor: 1, additional_info: AdditionalInfo::Release },
        network_version: NetworkVersion {
            chain_name: "TEZOS_MAINNET".into(),
            distributed_db_version: 2,
            p2p_version: 1,
        },
        commit_info: CommitInfo {
            commit_hash: "763259c5131a5cc8054151596f0f59ffb505f0fc".into(),
            commit_date: "2022-12-01 10:20:58 +0000".into(),
        },
    };
    assert_eq!(info.clone(), info);
    assert_eq!(info.version.additional_info, AdditionalInfo::Release);
}

#[test]
fn reported_gas_defaults_to_zero() {
    let r = DelegationOperationResult {
        consumed_gas: Some("1000".into()),
        consumed_milligas: Some("x".into()),
    };
    assert_eq!(r.consumed_gas(), Nat::from_u64(1000));
    assert_eq!(r.consumed_milligas(), Nat::from_u64(0));
    let none = DelegationOperationResult { consumed_gas: None, consumed_milligas: None };
    assert_eq!(none.consumed_gas(), Nat::from_u64(0));
    assert_eq!(none.number_of_originated_contracts(), 0);
}

#[test]
fn transaction_node_form_round_trip() {
    let content = tezos_core::operation::Transaction::new(
        ImplicitAddress::new(Curve::Ed25519, vec![1u8; 20]).unwrap(),
        Mutez::new(1000).unwrap(),
        Nat::from("18756523543673").unwrap(),
        Nat::from_u64(1527),
        Nat::from_u64(0),
        Mutez::new(5).unwrap(),
        Address::Implicit(ImplicitAddress::new(Curve::P256, vec![2u8; 20]).unwrap()),
        None,
    );
    let node = RpcTransaction::from_transaction(&content);
    assert_eq!(node.counter, "18756523543673");
    assert_eq!(node.gas_limit, "1527");
    assert_eq!(node.storage_limit, "0");
    assert_eq!(node.to_transaction().unwrap(), content);
    let mut bad = RpcTransaction::from_transaction(&content);
    bad.gas_limit = "15.0".to_string();
    assert_eq!(bad.to_transaction(), Err(Error::InvalidIntegerString));
}
