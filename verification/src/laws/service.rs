//! The service: its answers say what the state holds, and calls by name reach
//! their method.
use vstd::prelude::*;

use crate::codec::be;
use crate::collections::ordmap::OrdMap;
use crate::error::{DbError, Error, Result};
use crate::ids::{Id, NodeId};
use crate::jsonrpc::{dispatch, is_json_media_type, reply, route, transport_refusal, Params, Reply, RpcError, ServiceRegistry, Step};
use crate::service::encoding::{deserialize_lenient_u64, digits_value, encode_reply_bytes, height_of, parse_u64, HeightArg, HeightError};
use crate::service::pricing::{FeeConstants, Pricing};
use crate::service::rpc::RpcService;
use crate::service::service::{asked_for, shown, shown_upto, CurrentValidator, KnownValidator, Service};
use crate::service::state::ServiceState;
use crate::service::types::{ApiValidator, GetBlockArgs, GetBlockByHeightArgs, GetBlockResponse, GetCurrentSupplyArgs, GetCurrentSupplyReply, GetCurrentValidatorsArgs, GetCurrentValidatorsReply, GetFeeStateReply, GetHeightResponse, GetL1ValidatorArgs, GetL1ValidatorReply, GetStakingAssetIDArgs, GetStakingAssetIDResponse, GetTimestampReply, GetTxArgs, GetTxReply, GetTxStatusResponse, GetValidatorFeeStateReply, JsonGetValidatorOutput, ValidatedByResponse, ValidatesResponse};
use crate::text::{bech32_text, blank_end, blank_start, decimal_text, format_timestamp, hex_text, lowered, place_of, raised, trimmed, upper, white};
use crate::txs::tx::Tx;
use crate::wire::unversioned;

verus! {

/// The heights that are answered are those that were told, and a failure to
/// tell one is answered with what failed.
pub proof fn heights_are_answered_as_told<S: ServiceState>(
    s: &Service<S>,
    told: core::result::Result<u64, String>,
    current: Result<GetHeightResponse>,
    proposed: Result<GetHeightResponse>,
)
    requires
        call_ensures(Service::<S>::get_height, (s, told), current),
        call_ensures(Service::<S>::get_proposed_height, (s, told), proposed),
    ensures
        told matches Ok(h) ==> current is Ok && current->Ok_0.height == h && proposed is Ok
            && proposed->Ok_0.height == h,
        told matches Err(why) ==> {
            &&& current matches Err(Error::Service(m)) && m@ == "get current height: "@ + why@
            &&& proposed matches Err(Error::Service(n)) && n@ == "get minimum height: "@ + why@
        },
{
}

/// The supply that is answered is the subnet's.
pub proof fn the_supply_is_answered<S: ServiceState>(
    s: &Service<S>,
    args: &GetCurrentSupplyArgs,
    told: core::result::Result<u64, String>,
    r: Result<GetCurrentSupplyReply>,
)
    requires
        s.wf(),
        call_ensures(Service::<S>::get_current_supply, (s, args, told), r),
    ensures
        told matches Ok(h) ==> r is Ok && r->Ok_0.height == h && r->Ok_0.supply
            == s.stored().chain.supply[args.subnet_id@],
        told is Err ==> r is Err,
{
}

proof fn lemma_shown(
    ids: Seq<Seq<u8>>,
    vs: Seq<CurrentValidator>,
    nodes: Seq<NodeId>,
    n: nat,
    i: int,
)
    requires
        n <= ids.len(),
        n <= vs.len(),
        0 <= i < n,
    ensures
        nodes.len() == 0 || nodes.contains(vs[i].node_id) ==> shown_upto(
            ids,
            vs,
            nodes,
            n,
        ).contains(shown(ids[i], vs[i])),
    decreases n,
{
    let before = shown_upto(ids, vs, nodes, (n - 1) as nat);
    let all = shown_upto(ids, vs, nodes, n);
    if i < n - 1 {
        lemma_shown(ids, vs, nodes, (n - 1) as nat, i);
        if before.contains(shown(ids[i], vs[i])) {
            let x = before.index_of(shown(ids[i], vs[i]));
            assert(all[x] == before[x]);
        }
    } else if asked_for(nodes, vs[i].node_id) {
        assert(all[all.len() - 1] == shown(ids[i], vs[i]));
    }
}

proof fn lemma_shown_from(
    ids: Seq<Seq<u8>>,
    vs: Seq<CurrentValidator>,
    nodes: Seq<NodeId>,
    n: nat,
    x: int,
) -> (i: int)
    requires
        n <= ids.len(),
        n <= vs.len(),
        0 <= x < shown_upto(ids, vs, nodes, n).len(),
    ensures
        0 <= i < n,
        nodes.len() == 0 || nodes.contains(vs[i].node_id),
        shown_upto(ids, vs, nodes, n)[x] == shown(ids[i], vs[i]),
    decreases n,
{
    let before = shown_upto(ids, vs, nodes, (n - 1) as nat);
    if x < before.len() {
        lemma_shown_from(ids, vs, nodes, (n - 1) as nat, x)
    } else {
        n - 1
    }
}

/// Each validator that is asked for, or every one where none is named, is
/// answered with its node, weight, start and key; L1 validators with their
/// validation and nonce besides. No other is answered.
pub proof fn validators_are_answered_as_asked<S: ServiceState>(
    s: &Service<S>,
    args: &GetCurrentValidatorsArgs,
    set: OrdMap<Id, CurrentValidator>,
    r: Result<GetCurrentValidatorsReply>,
    i: int,
    x: int,
)
    requires
        call_ensures(
            Service::<S>::get_current_validators,
            (s, args, Ok::<OrdMap<Id, CurrentValidator>, String>(set)),
            r,
        ),
        set.keys().len() == set.vals().len(),
    ensures
        r is Ok,
        ({
            let list = r->Ok_0.validators@;
            let ids = set.keys();
            let vs = set.vals();
            &&& (0 <= i < ids.len() && (args.node_ids@.len() == 0 || args.node_ids@.contains(
                vs[i].node_id,
            ))) ==> exists|j: int|
                0 <= j < list.len() && (#[trigger] list[j]).tx_id@ == ids[i] && list[j].node_id@
                    == vs[i].node_id@ && list[j].weight == vs[i].weight && list[j].start_time
                    == vs[i].start_time && (vs[i].is_l1_validator <==> list[j].validation_id is Some)
                    && (vs[i].is_l1_validator ==> list[j].validation_id->0@ == ids[i]
                    && list[j].min_nonce == Some(vs[i].min_nonce)) && (!vs[i].is_l1_validator
                    ==> list[j].min_nonce is None) && (vs[i].public_key is None
                    ==> list[j].public_key is None) && (vs[i].public_key matches Some(k) ==> list[j].public_key is Some
                    && list[j].public_key->0@ == "0x"@ + hex_text(k.compressed@))
            &&& 0 <= x < list.len() ==> exists|j: int|
                0 <= j < ids.len() && (args.node_ids@.len() == 0 || args.node_ids@.contains(
                    (#[trigger] vs[j]).node_id,
                )) && list[x].tx_id@ == ids[j] && list[x].node_id@ == vs[j].node_id@
                    && list[x].weight == vs[j].weight
        }),
{
    let list = r->Ok_0.validators@;
    let views = list.map_values(|v: ApiValidator| v@);
    let ids = set.keys();
    let vs = set.vals();
    let nodes = args.node_ids@;
    if 0 <= i < ids.len() && (nodes.len() == 0 || nodes.contains(vs[i].node_id)) {
        lemma_shown(ids, vs, nodes, ids.len(), i);
        let j = views.index_of(shown(ids[i], vs[i]));
        assert(views[j] == shown(ids[i], vs[i]));
        assert(views[j] == list[j]@);
    }
    if 0 <= x < list.len() {
        let j = lemma_shown_from(ids, vs, nodes, ids.len(), x);
        assert(views[x] == list[x]@);
        assert(vs[j] == vs[j]);
    }
}

/// An L1 validator is answered as it is stored, one that is not stored is not
/// found.
pub proof fn an_l1_validator_is_answered<S: ServiceState>(
    s: &Service<S>,
    args: &GetL1ValidatorArgs,
    h: u64,
    r: Result<GetL1ValidatorReply>,
)
    requires
        s.wf(),
        call_ensures(Service::<S>::get_l1_validator, (s, args, Ok::<u64, String>(h)), r),
    ensures
        ({
            let all = s.stored().chain.l1_validators;
            let v = all[args.validation_id@];
            &&& !all.contains_key(args.validation_id@) ==> r == Err::<GetL1ValidatorReply, Error>(
                Error::Database(DbError::NotFound),
            )
            &&& all.contains_key(args.validation_id@) ==> {
                &&& r is Ok
                &&& r->Ok_0.node_id@ == v.node_id
                &&& r->Ok_0.weight == v.weight
                &&& r->Ok_0.start_time == v.start_time
                &&& r->Ok_0.validation_id@ == v.validation_id
                &&& r->Ok_0.min_nonce == v.min_nonce
                &&& r->Ok_0.subnet_id@ == v.subnet_id
                &&& r->Ok_0.height == h
                &&& v.public_key.len() != 96 ==> r->Ok_0.public_key is None
            }
        }),
{
}

/// The validators at a height are answered node by node, with their weight and
/// key, and no others.
pub proof fn validators_at_a_height_are_answered<S: ServiceState>(
    s: &Service<S>,
    height: u64,
    set: OrdMap<NodeId, KnownValidator>,
    r: Result<OrdMap<NodeId, JsonGetValidatorOutput>>,
    k: Seq<u8>,
)
    requires
        call_ensures(
            Service::<S>::get_validators_at,
            (s, height, Ok::<OrdMap<NodeId, KnownValidator>, String>(set)),
            r,
        ),
    ensures
        r is Ok,
        r->Ok_0@.contains_key(k) <==> set@.contains_key(k),
        set@.contains_key(k) ==> {
            &&& r->Ok_0@[k].weight == set@[k].weight
            &&& set@[k].public_key is None ==> r->Ok_0@[k].public_key is None
            &&& set@[k].public_key matches Some(p) ==> r->Ok_0@[k].public_key == Some(
                "0x"@ + hex_text(p.compressed@),
            )
        },
{
}

/// The fees that are answered are those of the state, at the price for their
/// excess: for L1 validators with the constant of the network, which is another
/// one on the test network.
pub proof fn fees_are_answered<S: ServiceState, P: Pricing>(
    s: &Service<S>,
    p: &P,
    c: &FeeConstants,
    gas: GetFeeStateReply,
    l1: GetValidatorFeeStateReply,
    k: u64,
)
    requires
        s.wf(),
        call_ensures(Service::<S>::get_fee_state::<P>, (s, p, c), gas),
        call_ensures(Service::<S>::get_validator_fee_state::<P>, (s, p, c), l1),
        call_ensures(Service::<S>::validator_fee_k, (s, c), k),
    ensures
        gas.capacity == s.stored().chain.fee_state.capacity,
        gas.excess == s.stored().chain.fee_state.excess,
        call_ensures(
            P::calculate_price,
            (p, c.gas_min_price, s.stored().chain.fee_state.excess, c.gas_k),
            gas.price,
        ),
        l1.excess == s.stored().chain.l1_validator_excess,
        s.network() == 5 ==> k == c.validator_k_fuji,
        s.network() != 5 ==> k == c.validator_k_mainnet,
        call_ensures(
            P::calculate_price,
            (p, c.validator_min_price, s.stored().chain.l1_validator_excess, k),
            l1.price,
        ),
{
}

/// The subnet of a chain is the one that was told. The chains of a subnet are
/// those of the state, for the primary network and for every subnet that a
/// stored transaction created, and for nothing else.
pub proof fn subnets_and_chains_are_answered<S: ServiceState>(
    s: &Service<S>,
    told: core::result::Result<Id, String>,
    by: Result<ValidatedByResponse>,
    subnet: Id,
    r: Result<ValidatesResponse>,
)
    requires
        s.wf(),
        call_ensures(Service::<S>::validated_by, (s, told), by),
        call_ensures(Service::<S>::validates, (s, subnet), r),
    ensures
        told matches Ok(id) ==> by is Ok && by->Ok_0.subnet_id == id,
        told is Err ==> by is Err,
        ({
            let txs = s.stored().chain.txs;
            let primary = subnet@ == Seq::new(32, |i: int| 0u8);
            &&& r is Ok ==> Seq::new(
                r->Ok_0.blockchain_ids@.len(),
                |i: int| r->Ok_0.blockchain_ids@[i]@,
            ) == s.stored().chain.chains[subnet@]
            &&& primary ==> r is Ok
            &&& !primary && !txs.contains_key(subnet@) ==> r is Err
            &&& !primary && txs.contains_key(subnet@) ==> match unversioned::<Tx>(
                262_144,
                txs[subnet@],
            ) {
                Ok(v) => r is Ok <==> v.unsigned is CreateSubnet,
                Err(e) => r == Err::<ValidatesResponse, Error>(Error::Codec(e)),
            }
        }),
{
    if r is Ok {
        assert(Seq::new(
            r->Ok_0.blockchain_ids@.len(),
            |i: int| r->Ok_0.blockchain_ids@[i]@,
        ) =~= crate::state::chain::id_bytes(r->Ok_0.blockchain_ids@));
    }
}

/// A stored transaction is committed and any other unknown; transactions and
/// blocks are answered with their bytes, a block at a height by the one that was
/// accepted there.
pub proof fn transactions_and_blocks_are_answered<S: ServiceState>(
    s: &Service<S>,
    id: Id,
    height: u64,
    status: GetTxStatusResponse,
    tx: Result<Vec<u8>>,
    block: Result<Vec<u8>>,
    at: Result<Vec<u8>>,
)
    requires
        s.wf(),
        call_ensures(Service::<S>::get_tx_status, (s, id), status),
        call_ensures(Service::<S>::get_tx_bytes, (s, id), tx),
        call_ensures(Service::<S>::get_block, (s, id), block),
        call_ensures(Service::<S>::get_block_by_height, (s, height), at),
    ensures
        ({
            let txs = s.stored().chain.txs;
            let blocks = s.stored().blocks;
            let index = s.stored().block_index;
            let k = be(height as nat, 8);
            &&& status.status is Committed <==> txs.contains_key(id@)
            &&& status.status is Unknown <==> !txs.contains_key(id@)
            &&& txs.contains_key(id@) ==> tx is Ok && tx->Ok_0@ == txs[id@]
            &&& !txs.contains_key(id@) ==> tx is Err
            &&& blocks.contains_key(id@) ==> block is Ok && block->Ok_0@ == blocks[id@]
            &&& !blocks.contains_key(id@) ==> block is Err
            &&& index.contains_key(k) && blocks.contains_key(index[k]) ==> at is Ok && at->Ok_0@
                == blocks[index[k]]
            &&& !index.contains_key(k) || !blocks.contains_key(index[k]) ==> at is Err
        }),
{
}

/// Bytes are answered in hexadecimal, with their checksum behind them unless
/// that is declined. Other encodings are refused.
pub proof fn bytes_are_answered_in_hex(
    bytes: &[u8],
    encoding: &str,
    r: core::result::Result<(String, String), RpcError>,
)
    requires
        call_ensures(encode_reply_bytes, (bytes, encoding), r),
    ensures
        encoding@ == "hex"@ || encoding@ == ""@ ==> {
            let d = crate::crypto::sha256_digest(bytes@);
            r is Ok && r->Ok_0.0@ == "0x"@ + hex_text(bytes@ + d.skip(d.len() - 4)) && r->Ok_0.1@
                == "hex"@
        },
        encoding@ == "hexnc"@ && encoding@ != "hex"@ && encoding@ != ""@ ==> r is Ok && r->Ok_0.0@
            == "0x"@ + hex_text(bytes@) && r->Ok_0.1@ == "hexnc"@,
        encoding@ != ""@ && encoding@ != "hex"@ && encoding@ != "hexnc"@ ==> r is Err,
        encoding@ != ""@ && encoding@ != "hex"@ && encoding@ != "hexnc"@ && encoding@ != "json"@
            ==> r->Err_0.code == -32602,
        encoding@ == "json"@ && encoding@ != ""@ && encoding@ != "hex"@ && encoding@ != "hexnc"@
            ==> r->Err_0.code == -32000,
{
}

/// What is asked for by name is answered with the stored bytes, in the encoding
/// that is asked for; what is not stored is a failure of the server.
pub proof fn calls_by_name_answer_what_is_stored<S: ServiceState>(
    s: &RpcService<S>,
    tx: &GetTxArgs,
    t: core::result::Result<GetTxReply, RpcError>,
    block: &GetBlockArgs,
    b: core::result::Result<GetBlockResponse, RpcError>,
    at: &GetBlockByHeightArgs,
    h: core::result::Result<GetBlockResponse, RpcError>,
    asset: &GetStakingAssetIDArgs,
    a: core::result::Result<GetStakingAssetIDResponse, RpcError>,
)
    requires
        s.wf(),
        call_ensures(RpcService::<S>::get_tx, (s, tx), t),
        call_ensures(RpcService::<S>::get_block, (s, block), b),
        call_ensures(RpcService::<S>::get_block_by_height, (s, at), h),
        call_ensures(RpcService::<S>::get_staking_asset_id, (s, asset), a),
    ensures
        ({
            let txs = s.stored().chain.txs;
            let blocks = s.stored().blocks;
            let index = s.stored().block_index;
            let k = be(at.height as nat, 8);
            &&& !txs.contains_key(tx.tx_id@) ==> t is Err && t->Err_0.code == -32000
            &&& txs.contains_key(tx.tx_id@) && tx.encoding@ == "hexnc"@ && "hexnc"@ != "hex"@
                && "hexnc"@ != ""@ ==> t is Ok && t->Ok_0.tx@ == "0x"@ + hex_text(txs[tx.tx_id@])
            &&& !blocks.contains_key(block.block_id@) ==> b is Err && b->Err_0.code == -32000
            &&& blocks.contains_key(block.block_id@) && block.encoding@ == "hexnc"@ && "hexnc"@
                != "hex"@ && "hexnc"@ != ""@ ==> b is Ok && b->Ok_0.block@ == "0x"@ + hex_text(
                blocks[block.block_id@],
            )
            &&& !index.contains_key(k) ==> h is Err && h->Err_0.code == -32000
            &&& index.contains_key(k) && blocks.contains_key(index[k]) && at.encoding@ == "hexnc"@
                && "hexnc"@ != "hex"@ && "hexnc"@ != ""@ ==> h is Ok && h->Ok_0.block@ == "0x"@
                + hex_text(blocks[index[k]])
            &&& a is Ok <==> asset.subnet_id@ == Seq::new(32, |i: int| 0u8)
            &&& a is Ok ==> a->Ok_0.asset_id == s.asset()
        }),
{
}

proof fn lemma_decimal(n: nat)
    ensures
        decimal_text(n).len() > 0,
        forall|i: int|
            0 <= i < decimal_text(n).len() ==> '0' <= #[trigger] decimal_text(n)[i] <= '9',
        digits_value(decimal_text(n)) == n,
    decreases n,
{
    let t = decimal_text(n);
    if n < 10 {
        assert(t.len() == 1);
        assert(t.drop_last() =~= Seq::empty());
        assert(digits_value(t.drop_last()) == 0);
        assert(t.last() as nat - '0' as nat == n);
    } else {
        lemma_decimal(n / 10);
        assert(t.last() as nat - '0' as nat == n % 10);
        assert(t.drop_last() =~= decimal_text(n / 10));
        assert forall|i: int| 0 <= i < t.len() implies '0' <= #[trigger] t[i] <= '9' by {
            if i < t.len() - 1 {
                assert(t[i] == decimal_text(n / 10)[i]);
            }
        }
    }
}

/// A number that is shown is read back, with a plus sign in front of it or
/// without; it is what is asked for as a height too. The text `proposed` asks
/// for the greatest height.
pub proof fn shown_numbers_are_read_back(
    n: u64,
    s: &str,
    r: Option<u64>,
    t: String,
    h: core::result::Result<u64, HeightError>,
    l: core::result::Result<u64, HeightError>,
)
    requires
        s@ == decimal_text(n as nat) || s@ == seq!['+'] + decimal_text(n as nat),
        t@ == s@,
        call_ensures(parse_u64, (s,), r),
        call_ensures(height_of, (HeightArg::Text(t),), h),
        call_ensures(deserialize_lenient_u64, (HeightArg::Text(t),), l),
    ensures
        r == Some(n),
        h == Ok::<u64, HeightError>(n),
        l == Ok::<u64, HeightError>(n),
{
    lemma_decimal(n as nat);
    let d = decimal_text(n as nat);
    assert(d[0] != '+');
    if s@ == seq!['+'] + d {
        assert(s@.drop_first() =~= d);
    }
    reveal_strlit("proposed");
    assert("proposed"@[0] == 'p');
}

/// What is no number is none: nothing, and whatever holds another character
/// than a digit behind its first.
pub proof fn what_is_no_number_is_refused(s: &str, r: Option<u64>, i: int)
    requires
        call_ensures(parse_u64, (s,), r),
    ensures
        s@.len() == 0 ==> r is None,
        0 <= i < s@.len() && !('0' <= s@[i] <= '9') && !(i == 0 && s@[0] == '+') ==> r is None,
        s@.len() == 1 && s@[0] == '+' ==> r is None,
{
    let d = crate::service::encoding::unsigned_part(s@);
    if 0 <= i < s@.len() && !('0' <= s@[i] <= '9') && !(i == 0 && s@[0] == '+') {
        if s@[0] == '+' {
            assert(d[i - 1] == s@[i]);
        } else {
            assert(d[i] == s@[i]);
        }
    }
}

/// A number that is asked for as such is taken as it is, and anything but a
/// number or a text is refused.
pub proof fn numbers_are_taken_as_they_are(
    n: u64,
    r: core::result::Result<u64, HeightError>,
    none: core::result::Result<u64, HeightError>,
    other: core::result::Result<u64, HeightError>,
    t: String,
    proposed: core::result::Result<u64, HeightError>,
)
    requires
        call_ensures(height_of, (HeightArg::Number(Some(n)),), r),
        call_ensures(height_of, (HeightArg::Number(None),), none),
        call_ensures(height_of, (HeightArg::Other,), other),
        t@ == "proposed"@,
        call_ensures(height_of, (HeightArg::Text(t),), proposed),
    ensures
        r == Ok::<u64, HeightError>(n),
        none is Err,
        other is Err,
        proposed == Ok::<u64, HeightError>(u64::MAX),
{
}

proof fn lemma_place(s: Seq<char>, t: Seq<char>, c: char)
    requires
        !s.contains(c),
    ensures
        place_of(s + seq![c] + t, c) == s.len(),
    decreases s.len(),
{
    let all = s + seq![c] + t;
    if s.len() > 0 {
        let rest = s.drop_first();
        assert(all.drop_first() =~= rest + seq![c] + t);
        assert(s[0] != c) by {
            assert(s.contains(s[0]));
        }
        assert(!rest.contains(c)) by {
            if rest.contains(c) {
                assert(s[rest.index_of(c) + 1] == c);
            }
        }
        lemma_place(rest, t, c);
    }
}

/// A request of the right version, for a method by the name of its service, in
/// whatever case, and its own with a small first letter, reaches the method that
/// was registered by that name with a great one.
pub proof fn requests_reach_their_method(
    registry: &ServiceRegistry,
    service: Seq<char>,
    name: Seq<char>,
    registered: Seq<char>,
    place: int,
    version: &str,
    method: &str,
    r: core::result::Result<usize, RpcError>,
)
    requires
        registry.wf(),
        !service.contains('.'),
        name.len() > 0,
        !upper(name[0]),
        version@ == "2.0"@,
        method@ == service + seq!['.'] + name,
        registered == lowered(service) + seq!['.'] + (raised(name[0]) + name.drop_first()),
        call_ensures(route, (registry, version, method), r),
    ensures
        0 <= place < registry@.len() && registry@[place] == registered ==> r is Ok && r->Ok_0
            == place,
        !registry@.contains(registered) ==> r is Err && r->Err_0.code == -32601,
{
    reveal_strlit(".");
    lemma_place(service, name, '.');
    assert(method@.take(service.len() as int) =~= service);
    assert(method@.skip((service.len() + 1) as int) =~= name);
    assert("."@ =~= seq!['.']);
    assert(lowered(service) + "."@ + (raised(name[0]) + name.drop_first()) =~= registered);
    if 0 <= place < registry@.len() && registry@[place] == registered {
        assert(registry@.contains(registered));
    }
}

/// A request of another version is refused as such; one for a method without a
/// service, or whose name starts with a great letter, is not found.
pub proof fn requests_are_refused(
    registry: &ServiceRegistry,
    version: &str,
    method: &str,
    r: core::result::Result<usize, RpcError>,
    service: Seq<char>,
    name: Seq<char>,
)
    requires
        call_ensures(route, (registry, version, method), r),
    ensures
        version@ != "2.0"@ ==> r is Err && r->Err_0.code == -32600,
        version@ == "2.0"@ && !method@.contains('.') ==> r is Err && r->Err_0.code == -32601,
        version@ == "2.0"@ && !service.contains('.') && name.len() > 0 && upper(name[0]) && method@
            == service + seq!['.'] + name ==> r is Err && r->Err_0.code == -32601,
        r matches Err(e) ==> e.data is None,
{
    if !method@.contains('.') {
        lemma_nowhere(method@, '.');
    }
    if !service.contains('.') && name.len() > 0 && method@ == service + seq!['.'] + name {
        lemma_place(service, name, '.');
        assert(method@.skip((service.len() + 1) as int) =~= name);
    }
}

proof fn lemma_nowhere(s: Seq<char>, c: char)
    requires
        !s.contains(c),
    ensures
        place_of(s, c) == s.len(),
    decreases s.len(),
{
    if s.len() > 0 {
        let rest = s.drop_first();
        assert(s.contains(s[0]));
        assert(!rest.contains(c)) by {
            if rest.contains(c) {
                assert(s[rest.index_of(c) + 1] == c);
            }
        }
        lemma_nowhere(rest, c);
    }
}

/// A request that is dispatched calls the method that it is routed to, with the
/// first of its parameters, and is refused where it is not routed. The reply
/// carries the id of the request, and all of a failure.
pub proof fn requests_are_dispatched_and_answered<V>(
    registry: &ServiceRegistry,
    version: &str,
    method: &str,
    params: Params<V>,
    id: V,
    to: core::result::Result<usize, RpcError>,
    r: Step<V>,
    outcome: core::result::Result<V, RpcError>,
    answer: Reply<V>,
)
    requires
        registry.wf(),
        call_ensures(route, (registry, version, method), to),
        call_ensures(dispatch::<V>, (registry, version, method, params, id), r),
        call_ensures(reply::<V>, (id, outcome), answer),
    ensures
        to matches Ok(p) ==> {
            &&& r matches Step::Call { place, param, id: of }
            &&& place == p
            &&& of == id
            &&& params matches Params::Single(v) ==> param == Some(v)
            &&& params is Nothing ==> param is None
            &&& params matches Params::List(l) ==> {
                &&& l@.len() == 0 ==> param is None
                &&& l@.len() > 0 ==> param == Some(l@[0])
            }
        },
        to matches Err(e) ==> {
            &&& r matches Step::Refuse(Reply::Failure { error, id: of })
            &&& error.code == e.code && error.message@ == e.message@
            &&& of == id
        },
        outcome matches Ok(v) ==> answer == (Reply::Answer { result: v, id }),
        outcome matches Err(e) ==> answer == (Reply::Failure { error: e, id }),
{
}

/// Only a `POST` of JSON is read, whatever the case of either.
pub proof fn only_posts_of_json_are_read(
    method: &str,
    kind: Option<&str>,
    r: Option<u16>,
    json: bool,
)
    requires
        call_ensures(transport_refusal, (method, kind), r),
        kind matches Some(k) ==> call_ensures(is_json_media_type, (k,), json),
    ensures
        lowered(method@) != lowered("POST"@) ==> r == Some(405u16),
        lowered(method@) == lowered("POST"@) && kind is None ==> r == Some(415u16),
        lowered(method@) == lowered("POST"@) && kind is Some && json ==> r is None,
        lowered(method@) == lowered("POST"@) && kind is Some && !json ==> r == Some(415u16),
{
}

/// A method that was registered stands at its place, behind those that were
/// there, or at the place that it had.
pub proof fn methods_keep_their_places(registry: &mut ServiceRegistry, wire: &str, r: usize, i: int)
    requires
        old(registry).wf(),
        call_ensures(ServiceRegistry::register, (registry, wire), r),
    ensures
        0 <= i < old(registry)@.len() ==> final(registry)@[i] == old(registry)@[i],
        final(registry)@.len() <= old(registry)@.len() + 1,
        r < final(registry)@.len(),
        r < old(registry)@.len() || r == old(registry)@.len(),
        final(registry).wf(),
{
}

/// A method is found by the name of its service, in whatever case, and its own,
/// at the place that it was registered at.
pub proof fn registered_methods_are_found(
    registry: &mut ServiceRegistry,
    service: Seq<char>,
    name: Seq<char>,
    wire: &str,
    place: usize,
    after: &ServiceRegistry,
    asked_service: &str,
    asked_name: &str,
    found: Option<usize>,
)
    requires
        old(registry).wf(),
        !service.contains('.'),
        wire@ == service + seq!['.'] + name,
        call_ensures(ServiceRegistry::register, (registry, wire), place),
        *after == *final(registry),
        lowered(asked_service@) == lowered(service),
        asked_name@ == name,
        call_ensures(ServiceRegistry::lookup, (after, asked_service, asked_name), found),
    ensures
        found == Some(place),
{
    reveal_strlit(".");
    lemma_place(service, name, '.');
    assert(wire@.take(service.len() as int) =~= service);
    assert(wire@.skip((service.len() + 1) as int) =~= name);
    assert(after@.contains(after@[place as int]));
}

/// JSON is asked for in whatever case, and whatever is said behind it.
pub proof fn json_is_asked_for_in_any_case(value: &str, kind: Seq<char>, more: Seq<char>, r: bool)
    requires
        kind.len() > 0,
        forall|i: int| 0 <= i < kind.len() ==> !white(#[trigger] kind[i]),
        !kind.contains(';'),
        value@ == kind || value@ == kind + seq![';'] + more,
        call_ensures(is_json_media_type, (value,), r),
    ensures
        r <==> lowered(kind) == lowered("application/json"@),
{
    if value@ == kind {
        lemma_nowhere(kind, ';');
        assert(value@.take(kind.len() as int) =~= kind);
    } else {
        lemma_place(kind, more, ';');
        assert(value@.take(kind.len() as int) =~= kind);
    }
    assert(blank_start(kind) == 0);
    assert(kind.skip(0) =~= kind);
    assert(blank_end(kind) == 0);
    assert(trimmed(kind) =~= kind);
}

/// Each way that a call fails has a code of its own, carries the message that it
/// is given, and says nothing else until it is told to.
pub proof fn failures_have_codes(
    message: String,
    data: String,
    server: RpcError,
    params: RpcError,
    method: RpcError,
    internal: RpcError,
    parse: RpcError,
    told: RpcError,
)
    requires
        call_ensures(RpcError::server, (message,), server),
        call_ensures(RpcError::invalid_params, (message,), params),
        call_ensures(RpcError::method_not_found, (message,), method),
        call_ensures(RpcError::internal, (message,), internal),
        call_ensures(RpcError::parse, (), parse),
        call_ensures(RpcError::with_data, (server, data), told),
    ensures
        server.code == -32000 && params.code == -32602 && method.code == -32601,
        internal.code == -32603 && parse.code == -32700,
        server.message@ == message@ && params.message@ == message@ && method.message@ == message@
            && internal.message@ == message@,
        server.data is None && params.data is None && method.data is None && internal.data is None
            && parse.data is None,
        told.data == Some(data) && told.code == server.code && told.message@ == server.message@,
{
}

/// The time of the chain is answered as times are shown, and an address is shown
/// behind the letter of its chain.
pub proof fn times_and_addresses_are_shown<S: ServiceState>(
    s: &Service<S>,
    time: String,
    r: GetTimestampReply,
    address: &[u8],
    shown: Result<String>,
)
    requires
        s.wf(),
        call_ensures(format_timestamp, (s.stored().chain.timestamp,), time),
        call_ensures(Service::<S>::get_timestamp, (s,), r),
        call_ensures(Service::<S>::format_address, (s, address), shown),
    ensures
        r.timestamp@ == time@,
        shown matches Ok(a) ==> a@.len() >= 2 && a@[0] == 'P' && a@[1] == '-'
            && bech32_text(s.prefix(), address@) == Ok::<Seq<char>, Seq<char>>(a@.skip(2)),
        shown is Ok <==> bech32_text(s.prefix(), address@) is Ok,
{
    reveal_strlit("P-");
    if let Ok(a) = shown {
        assert(a@.skip(2) =~= bech32_text(s.prefix(), address@)->Ok_0);
    }
}

} // verus!
