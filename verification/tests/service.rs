use ava_platformvm::block::codec::Codec;
use ava_platformvm::collections::ordmap::OrdMap;
use ava_platformvm::crypto::{digest_id, PublicKey};
use ava_platformvm::error::{DbError, Error};
use ava_platformvm::ids::{Id, NodeId, ShortId};
use ava_platformvm::jsonrpc::{
    dispatch, first_param, is_json_media_type, normalize_method, reply, route, transport_refusal,
    Params, Reply, RpcError, ServiceRegistry, Step, BAD_PARAMS, INTERNAL, INVALID_REQ, NO_METHOD, PARSE, SERVER,
};
use ava_platformvm::service::encoding::{
    deserialize_lenient_u64, encode_reply_bytes, height_of, parse_u64, HeightArg, HeightError,
};
use ava_platformvm::service::rpc::{answered, server_err};
use ava_platformvm::service::service::{CurrentValidator, KnownValidator};
use ava_platformvm::service::types::{
    GetBlockArgs, GetBlockByHeightArgs, GetCurrentSupplyArgs, GetCurrentValidatorsArgs,
    GetL1ValidatorArgs, GetStakingAssetIDArgs, GetTxArgs,
};
use ava_platformvm::service::{
    method_at, registry, FeeConstants, Method, Pricing, RpcService, Service,
};
use ava_platformvm::state::chain::{Chain, GasState};
use ava_platformvm::state::l1_validator::L1Validator;
use ava_platformvm::state::state::State;
use ava_platformvm::status::Status;
use ava_platformvm::text::{
    format_timestamp, hex_nc, id_string, node_id_string, parse_id, parse_node_id, with_checksum,
};
use ava_platformvm::txs::components::{BaseTx, OutputOwners, Owner};
use ava_platformvm::txs::tx::Tx;
use ava_platformvm::txs::unsigned::{CreateSubnetTx, UnsignedTx};
use ava_platformvm::wire::List;

const AVAX: u64 = 1_000_000_000;

fn pk(seed: u8) -> PublicKey {
    let secret = blst::min_pk::SecretKey::key_gen(&[seed; 32], &[]).expect("secret");
    PublicKey::from_compressed(&secret.sk_to_pk().to_bytes()).expect("a key")
}

fn seeded_state() -> State {
    let mut s = State::new();
    s.set_timestamp(1_600_000_000);
    s.set_current_supply(Id::empty(), 100_000_000 * AVAX);
    s.set_last_accepted(Id::from([0xAB; 32]));
    s.set_height(1);
    s
}

fn service_over(state: State) -> Service<State> {
    Service::new(state, "avax".to_string(), 1)
}

fn current_set() -> OrdMap<Id, CurrentValidator> {
    let mut m = OrdMap::new();
    for (tx, node, seed, weight) in
        [(0x02u8, 0x0Bu8, 0x22u8, 2_000 * AVAX), (0x01, 0x0A, 0x11, 1_000 * AVAX)]
    {
        m.insert(
            Id::from([tx; 32]),
            CurrentValidator {
                node_id: NodeId::from([node; 20]),
                public_key: Some(pk(seed)),
                weight,
                start_time: 1_600_000_000,
                min_nonce: 0,
                is_l1_validator: false,
            },
        );
    }
    m
}

#[test]
fn service_get_current_validators() {
    let service = service_over(seeded_state());
    let reply = service
        .get_current_validators(&GetCurrentValidatorsArgs::default(), Ok(current_set()))
        .expect("get current validators");

    assert_eq!(reply.validators.len(), 2);
    assert_eq!(reply.validators[0].tx_id, Id::from([0x01; 32]));
    assert_eq!(reply.validators[1].tx_id, Id::from([0x02; 32]));
    assert_eq!(reply.validators[0].node_id, NodeId::from([0x0A; 20]));
    assert_eq!(reply.validators[0].weight, 1_000 * AVAX);
    assert_eq!(reply.validators[0].start_time, 1_600_000_000);
    assert_eq!(reply.validators[1].node_id, NodeId::from([0x0B; 20]));
    assert_eq!(reply.validators[1].weight, 2_000 * AVAX);
    assert_eq!(
        reply.validators[0].public_key,
        Some(format!("0x{}", hex::encode(pk(0x11).compress())))
    );
    assert_eq!(
        reply.validators[1].public_key,
        Some(format!("0x{}", hex::encode(pk(0x22).compress())))
    );
    assert!(reply.validators[0].validation_id.is_none());
    assert!(reply.validators[0].min_nonce.is_none());

    // Only the nodes that are asked for.
    let args = GetCurrentValidatorsArgs {
        node_ids: vec![NodeId::from([0x0B; 20])],
        ..GetCurrentValidatorsArgs::default()
    };
    let reply = service.get_current_validators(&args, Ok(current_set())).expect("one");
    assert_eq!(reply.validators.len(), 1);
    assert_eq!(reply.validators[0].tx_id, Id::from([0x02; 32]));

    assert_eq!(
        service.get_current_validators(&args, Err("gone".to_string())),
        Err(Error::Service("get current validators: gone".to_string()))
    );
}

#[test]
fn service_read_method_shapes() {
    let service = service_over(seeded_state());
    assert_eq!(service.get_height(Ok(1)).expect("height").height, 1);
    assert_eq!(service.get_proposed_height(Ok(2)).expect("height").height, 2);
    assert_eq!(
        service.get_height(Err("x".to_string())),
        Err(Error::Service("get current height: x".to_string()))
    );

    let supply = service
        .get_current_supply(&GetCurrentSupplyArgs::default(), Ok(1))
        .expect("supply");
    assert_eq!(supply.supply, 100_000_000 * AVAX);
    assert_eq!(supply.height, 1);

    assert_eq!(service.get_timestamp().timestamp, "2020-09-13T12:26:40Z");

    let mut set = OrdMap::new();
    set.insert(
        NodeId::from([0x0A; 20]),
        KnownValidator { public_key: Some(pk(0x11)), weight: 5 },
    );
    set.insert(NodeId::from([0x0B; 20]), KnownValidator { public_key: None, weight: 6 });
    let vat = service.get_validators_at(1, Ok(set)).expect("validators at");
    assert_eq!(vat.len(), 2);
    assert_eq!(
        vat.val_at(0).public_key,
        Some(format!("0x{}", hex::encode(pk(0x11).compress())))
    );
    assert_eq!((vat.val_at(0).weight, vat.val_at(1).weight), (5, 6));
    assert_eq!(vat.val_at(1).public_key, None);
}

const FEES: FeeConstants = FeeConstants {
    gas_min_price: 1,
    gas_k: 2,
    validator_min_price: 512,
    validator_k_mainnet: 100,
    validator_k_fuji: 200,
};

struct Sum;

impl Pricing for Sum {
    fn calculate_price(&self, min_price: u64, excess: u64, k: u64) -> u64 {
        min_price + excess + k
    }
}

#[test]
fn fee_states_are_read_from_the_state() {
    let mut s = seeded_state();
    s.set_fee_state(GasState { capacity: 10, excess: 20 });
    s.set_l1_validator_excess(30);
    let service = service_over(s);
    let fs = service.get_fee_state(&Sum, &FEES);
    assert_eq!((fs.capacity, fs.excess, fs.price), (10, 20, 1 + 20 + 2));
    assert_eq!(fs.timestamp, "2020-09-13T12:26:40Z");
    let vfs = service.get_validator_fee_state(&Sum, &FEES);
    assert_eq!((vfs.excess, vfs.price), (30, 512 + 30 + 100));
    assert_eq!(service.validator_fee_k(&FEES), 100);
    let fuji = Service::new(seeded_state(), "fuji".to_string(), 5);
    assert_eq!(fuji.validator_fee_k(&FEES), 200);
    assert_eq!(fuji.get_validator_fee_state(&Sum, &FEES).price, 512 + 200);
}

#[test]
fn service_get_block_by_height_roundtrip() {
    let mut s = seeded_state();
    let missing = service_over(s.snapshot()).get_block_by_height(99);
    assert_eq!(missing, Err(Error::Service("no block at height 99".to_string())));

    s.add_block(Id::from([7; 32]), 99, &[1, 2, 3]);
    let service = service_over(s);
    assert_eq!(service.get_block_by_height(99), Ok(vec![1, 2, 3]));
    assert_eq!(service.get_block(Id::from([7; 32])), Ok(vec![1, 2, 3]));
    assert_eq!(
        service.get_block(Id::from([8; 32])),
        Err(Error::Database(DbError::NotFound))
    );
}

#[test]
fn l1_validators_are_shown() {
    let mut s = seeded_state();
    let key = pk(0x33);
    s.put_l1_validator(L1Validator {
        validation_id: Id::from([9; 32]),
        subnet_id: Id::from([8; 32]),
        node_id: NodeId::from([7; 20]),
        public_key: key.serialize().to_vec(),
        remaining_balance_owner: vec![],
        deactivation_owner: vec![],
        start_time: 11,
        weight: 12,
        min_nonce: 13,
        end_accumulated_fee: 14,
    })
    .expect("put");
    let service = service_over(s);
    let args = GetL1ValidatorArgs { validation_id: Id::from([9; 32]) };
    let r = service.get_l1_validator(&args, Ok(42)).expect("reply");
    assert_eq!(r.node_id, NodeId::from([7; 20]));
    assert_eq!((r.start_time, r.weight, r.min_nonce, r.height), (11, 12, 13, 42));
    assert_eq!(r.public_key, Some(format!("0x{}", hex::encode(key.compress()))));
    let args = GetL1ValidatorArgs { validation_id: Id::from([1; 32]) };
    assert_eq!(
        service.get_l1_validator(&args, Ok(42)),
        Err(Error::Database(DbError::NotFound))
    );
}

#[test]
fn only_subnets_validate_chains() {
    let mut s = seeded_state();
    let base = BaseTx {
        network_id: 1,
        blockchain_id: Id::empty(),
        outs: List { items: vec![] },
        ins: List { items: vec![] },
        memo: vec![],
    };
    let mut tx = Tx::new(UnsignedTx::CreateSubnet(CreateSubnetTx {
        base,
        owner: Owner::Secp256k1(OutputOwners {
            locktime: 0,
            threshold: 1,
            addrs: List { items: vec![ShortId::from([1; 20])] },
        }),
    }));
    tx.initialize(&Codec()).expect("init");
    s.add_tx(tx.id(), tx.bytes().to_vec());
    s.add_tx(Id::from([5; 32]), vec![1]);
    s.add_chain(tx.id(), Id::from([6; 32]));
    let service = service_over(s);
    assert_eq!(
        service.validates(tx.id()).expect("a subnet").blockchain_ids,
        vec![Id::from([6; 32])]
    );
    assert!(service.validates(Id::empty()).expect("primary").blockchain_ids.is_empty());
    assert!(matches!(service.validates(Id::from([5; 32])), Err(Error::Codec(_))));
    assert_eq!(
        service.validates(Id::from([4; 32])),
        Err(Error::Service(format!(
            "problem retrieving subnet \"{}\": database: {}",
            id_string(&Id::from([4; 32])),
            DbError::NotFound.message()
        )))
    );
    assert_eq!(
        service.validated_by(Ok(Id::from([3; 32]))).expect("subnet").subnet_id,
        Id::from([3; 32])
    );
    assert_eq!(
        service.validated_by(Err("x".to_string())),
        Err(Error::Service("get subnet id: x".to_string()))
    );
    assert_eq!(service.get_tx_status(tx.id()).status, Status::Committed);
    assert_eq!(service.get_tx_status(Id::from([0xEE; 32])).status, Status::Unknown);
    assert_eq!(service.get_tx_bytes(tx.id()), Ok(tx.bytes().to_vec()));
}

#[test]
fn addresses_are_written_in_bech32() {
    let service = service_over(seeded_state());
    let a = service.format_address(&[0u8; 20]).expect("address");
    assert_eq!(a, "P-avax1qqqqqqqqqqqqqqqqqqqqqqqqqqqqqqqqxpdk7q");
    let bad = Service::new(seeded_state(), String::new(), 1);
    assert!(bad.format_address(&[0u8; 20]).is_err());
}

#[test]
fn platform_method_set_matches_bridged() {
    let reg = registry();
    const BRIDGED: [&str; 16] = [
        "GetHeight",
        "GetProposedHeight",
        "GetTimestamp",
        "GetCurrentSupply",
        "GetCurrentValidators",
        "GetL1Validator",
        "GetValidatorsAt",
        "GetFeeState",
        "GetValidatorFeeState",
        "ValidatedBy",
        "Validates",
        "GetTxStatus",
        "GetTx",
        "GetBlock",
        "GetBlockByHeight",
        "GetStakingAssetID",
    ];
    assert_eq!(reg.len(), BRIDGED.len());
    for m in BRIDGED {
        assert!(reg.lookup("platform", m).is_some());
    }
    assert!(reg.lookup("platform", "GetStakingAssetId").is_none());
    for m in ["IssueTx", "GetUTXOs", "GetBalance", "SampleValidators"] {
        assert!(reg.lookup("platform", m).is_none());
    }
}

#[test]
fn every_name_has_its_own_method() {
    let reg = registry();
    for (name, method) in [
        ("platform.getHeight", Method::GetHeight),
        ("platform.getProposedHeight", Method::GetProposedHeight),
        ("platform.getTimestamp", Method::GetTimestamp),
        ("platform.getCurrentSupply", Method::GetCurrentSupply),
        ("platform.getCurrentValidators", Method::GetCurrentValidators),
        ("platform.getL1Validator", Method::GetL1Validator),
        ("platform.getValidatorsAt", Method::GetValidatorsAt),
        ("platform.getFeeState", Method::GetFeeState),
        ("platform.getValidatorFeeState", Method::GetValidatorFeeState),
        ("platform.validatedBy", Method::ValidatedBy),
        ("platform.validates", Method::Validates),
        ("platform.getTxStatus", Method::GetTxStatus),
        ("platform.getTx", Method::GetTx),
        ("platform.getBlock", Method::GetBlock),
        ("platform.getBlockByHeight", Method::GetBlockByHeight),
        ("platform.getStakingAssetID", Method::GetStakingAssetID),
    ] {
        let place = route(&reg, "2.0", name).expect("a method");
        assert_eq!(method_at(place), Some(method));
    }
    assert_eq!(method_at(reg.len()), None);
}

#[test]
fn calls_by_name_answer_or_say_why_not() {
    let mut s = seeded_state();
    s.add_tx(Id::from([1; 32]), vec![0xAB]);
    s.add_block(Id::from([2; 32]), 5, &[0xCD]);
    let rpc = RpcService::new(service_over(s), Id::from([0x42; 32]));

    let args = GetTxArgs { tx_id: Id::from([1; 32]), encoding: "hexnc".to_string() };
    let r = rpc.get_tx(&args).expect("tx");
    assert_eq!((r.tx.as_str(), r.encoding.as_str()), ("0xab", "hexnc"));
    let args = GetTxArgs { tx_id: Id::from([9; 32]), encoding: "hexnc".to_string() };
    assert_eq!(rpc.get_tx(&args).expect_err("absent").code, SERVER);

    let args = GetBlockArgs { block_id: Id::from([2; 32]), encoding: "hexnc".to_string() };
    assert_eq!(rpc.get_block(&args).expect("block").block, "0xcd");
    let args = GetBlockByHeightArgs { height: 5, encoding: "hexnc".to_string() };
    assert_eq!(rpc.get_block_by_height(&args).expect("block").block, "0xcd");
    let args = GetBlockByHeightArgs { height: 6, encoding: "hexnc".to_string() };
    assert!(rpc.get_block_by_height(&args).is_err());

    let args = GetStakingAssetIDArgs::default();
    assert_eq!(rpc.get_staking_asset_id(&args).expect("asset").asset_id, Id::from([0x42; 32]));
    let subnet = Id::from([0x07; 32]);
    let e = rpc
        .get_staking_asset_id(&GetStakingAssetIDArgs { subnet_id: subnet })
        .expect_err("not transformed");
    assert_eq!(e.code, -32000);
    assert_eq!(
        e.message,
        format!("failed fetching subnet transformation for {}: not found", id_string(&subnet))
    );
    assert_eq!(rpc.service().get_height(Ok(3)).expect("height").height, 3);
}

#[test]
fn height_arg_accepts_go_forms() {
    assert_eq!(height_of(HeightArg::Text("7".to_string())), Ok(7));
    assert_eq!(height_of(HeightArg::Number(Some(7))), Ok(7));
    assert_eq!(height_of(HeightArg::Text("proposed".to_string())), Ok(u64::MAX));
    assert_eq!(height_of(HeightArg::Number(None)), Err(HeightError::OutOfRange));
    assert_eq!(height_of(HeightArg::Text("-7".to_string())), Err(HeightError::NotANumber));
    assert_eq!(height_of(HeightArg::Other), Err(HeightError::WrongShape));
    // Other numbers take the same forms, but for the name.
    assert_eq!(deserialize_lenient_u64(HeightArg::Text("7".to_string())), Ok(7));
    assert_eq!(deserialize_lenient_u64(HeightArg::Number(Some(7))), Ok(7));
    assert_eq!(
        deserialize_lenient_u64(HeightArg::Text("proposed".to_string())),
        Err(HeightError::NotANumber)
    );
    assert_eq!(parse_u64("18446744073709551615"), Some(u64::MAX));
    assert_eq!(parse_u64("18446744073709551616"), None);
    assert_eq!(parse_u64("+12"), Some(12));
    assert_eq!(parse_u64(""), None);
    assert_eq!(parse_u64("+"), None);
}

#[test]
fn encode_reply_bytes_matches_go_formatting() {
    let raw = b"hello platform";
    let (hex_s, enc) = encode_reply_bytes(raw, "").expect("hex default");
    assert_eq!(enc, "hex");
    let decoded = hex::decode(hex_s.trim_start_matches("0x")).expect("hex");
    assert_eq!(decoded.len(), raw.len() + 4);
    let digest = digest_id(raw);
    assert_eq!(&decoded[raw.len()..], &digest.as_bytes()[28..]);

    let (nc, enc) = encode_reply_bytes(raw, "hexnc").expect("hexnc");
    assert_eq!(enc, "hexnc");
    assert_eq!(nc, format!("0x{}", hex::encode(raw)));

    assert_eq!(encode_reply_bytes(raw, "json").expect_err("json").code, -32000);
    assert_eq!(encode_reply_bytes(raw, "cb58").expect_err("cb58").code, -32602);
}

#[test]
fn ids_are_written_with_a_checksum() {
    assert_eq!(id_string(&Id::empty()), "11111111111111111111111111111111LpoYY");
    assert_eq!(parse_id("11111111111111111111111111111111LpoYY"), Some(Id::empty()));
    assert_eq!(parse_id("11111111111111111111111111111111LpoYZ"), None);
    assert_eq!(parse_id("0OIl"), None);
    assert_eq!(parse_id(""), None);
    for b in [1u8, 0x42, 0xff] {
        assert_eq!(parse_id(&id_string(&Id::from([b; 32]))), Some(Id::from([b; 32])));
        let node = NodeId::from([b; 20]);
        assert!(node_id_string(&node).starts_with("NodeID-"));
        assert_eq!(parse_node_id(&node_id_string(&node)), Some(node));
        assert_eq!(parse_node_id(&id_string(&Id::from([b; 32]))), None);
        assert_eq!(parse_id(&node_id_string(&node)), None);
    }
    assert_eq!(parse_node_id("NodeID-"), None);
    assert_eq!(parse_node_id("Node"), None);
    assert_eq!(hex_nc(&[0x00, 0xff, 0x1a]), "0x00ff1a");
    let b = with_checksum(b"abc");
    assert_eq!(b, vec![b'a', b'b', b'c', 0xf2, 0x00, 0x15, 0xad]);
}

#[test]
fn times_are_written_in_utc() {
    assert_eq!(format_timestamp(0), "1970-01-01T00:00:00Z");
    assert_eq!(format_timestamp(951_827_696), "2000-02-29T12:34:56Z");
}

fn test_registry() -> ServiceRegistry {
    let mut r = ServiceRegistry::new();
    assert!(r.is_empty());
    assert_eq!(r.register("test.GetNodeID"), 0);
    assert_eq!(r.register("test.Echo"), 1);
    assert_eq!(r.register("test.Fail"), 2);
    r
}

#[test]
fn gorilla_wire_shape() {
    let r = test_registry();
    assert_eq!(route(&r, "2.0", "test.getNodeID"), Ok(0));
    assert_eq!(route(&r, "2.0", "test.echo"), Ok(1));
    assert_eq!(route(&r, "2.0", "test.getNodeId").expect_err("none").code, NO_METHOD);
    assert_eq!(
        route(&r, "2.0", "echo").expect_err("no service").message,
        "rpc: can't find method echo"
    );
    assert_eq!(first_param(Params::List(vec![1, 2])), Some(1));
    assert_eq!(first_param(Params::List(Vec::<u8>::new())), None);
    assert_eq!(first_param(Params::<u8>::Nothing), None);
    assert_eq!(first_param(Params::Single(3)), Some(3));
}

#[test]
fn a_request_is_dispatched_and_replied_to() {
    let r = test_registry();
    match dispatch(&r, "2.0", "test.echo", Params::List(vec![7, 8]), 1) {
        Step::Call { place, param, id } => assert_eq!((place, param, id), (1, Some(7), 1)),
        Step::Refuse(_) => panic!("refused"),
    }
    match dispatch(&r, "1.0", "test.echo", Params::Single(7), 1) {
        Step::Refuse(Reply::Failure { error, id }) => {
            assert_eq!((error.code, error.data, id), (INVALID_REQ, None, 1));
        }
        _ => panic!("not refused"),
    }
    match reply(2, Ok(9)) {
        Reply::Answer { result, id } => assert_eq!((result, id), (9, 2)),
        Reply::Failure { .. } => panic!("failed"),
    }
    // What else a failure says reaches the reply.
    let e = RpcError::server("x".to_string()).with_data("{\"a\":1}".to_string());
    match reply(2, Err(e.clone())) {
        Reply::Failure { error, id } => {
            assert_eq!(error.data.as_deref(), Some("{\"a\":1}"));
            assert_eq!((error, id), (e, 2));
        }
        Reply::Answer { .. } => panic!("answered"),
    }
}

#[test]
fn uppercase_method_guard() {
    let r = test_registry();
    let e = route(&r, "2.0", "test.GetNodeID").expect_err("ill-formed");
    assert_eq!(e.code, NO_METHOD);
    assert_eq!(e.message, "rpc: service/method ill-formed: \"test.GetNodeID\"");
    assert_eq!(route(&r, "2.0", "Test.getNodeID"), Ok(0));
    assert_eq!(normalize_method("getHeight"), Some("GetHeight".to_string()));
    assert_eq!(normalize_method("GetHeight"), None);
}

#[test]
fn envelope_error_codes() {
    let r = test_registry();
    assert_eq!(route(&r, "1.0", "test.echo").expect_err("version").code, INVALID_REQ);
    assert_eq!(RpcError::parse().code, PARSE);
    assert_eq!(RpcError::internal("x".to_string()).code, INTERNAL);
    assert_eq!(RpcError::invalid_params("x".to_string()).code, BAD_PARAMS);
    assert_eq!(RpcError::method_not_found("x".to_string()).code, NO_METHOD);
    let e = server_err(Error::Overflow);
    assert_eq!((e.code, e.message.as_str()), (SERVER, "overflow"));
    assert_eq!(answered::<u8>(Err(Error::Overflow)), Err(e));
    assert_eq!(answered(Ok(3u8)), Ok(3));
}

#[test]
fn transport_status_codes() {
    assert_eq!(transport_refusal("GET", None), Some(405));
    assert_eq!(transport_refusal("POST", Some("text/plain")), Some(415));
    assert_eq!(transport_refusal("POST", None), Some(415));
    assert_eq!(transport_refusal("post", Some("application/json;charset=UTF-8")), None);
    assert!(is_json_media_type(" Application/JSON ; charset=utf-8"));
    assert!(!is_json_media_type("application/jsonp"));
}
