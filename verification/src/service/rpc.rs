//! The methods of the service as they are called by name.
use vstd::prelude::*;

use crate::codec::be;
use crate::error::{joined, not_found, Error};
use crate::ids::{empty_id, Id};
use crate::jsonrpc::{wire_key, RpcError, ServiceRegistry, SERVER};
use crate::service::encoding::{encode_reply_bytes, encoded};
use crate::service::service::Service;
use crate::service::state::ServiceState;
use crate::service::types::{GetBlockArgs, GetBlockByHeightArgs, GetBlockResponse, GetStakingAssetIDArgs, GetStakingAssetIDResponse, GetTxArgs, GetTxReply};
use crate::text::{decimal_text, id_string, id_text, lowered, place_of};

verus! {

/// How a failure of the service is answered.
pub fn server_err(e: Error) -> (r: RpcError)
    ensures
        r.says(SERVER, e.text()),
{
    RpcError::server(e.message())
}

/// What a method answers: what the service gave, or how its failure is answered.
pub fn answered<T>(r: core::result::Result<T, Error>) -> (out: Result<T, RpcError>)
    ensures
        match r {
            Ok(v) => out == Ok::<T, RpcError>(v),
            Err(e) => out is Err && out->Err_0.says(SERVER, e.text()),
        },
{
    match r {
        Ok(v) => Ok(v),
        Err(e) => Err(server_err(e)),
    }
}

/// The methods of the service, called by name.
pub struct RpcService<S: ServiceState> {
    service: Service<S>,
    avax_asset_id: Id,
}

/// Whether `r` holds `bytes` as `encoding` asks, or refuses the encoding.
pub open spec fn answers(
    text: Option<(Seq<char>, Seq<char>)>,
    error: Option<RpcError>,
    bytes: Seq<u8>,
    encoding: Seq<char>,
) -> bool {
    match encoded(bytes, encoding) {
        Ok(t) => text == Some(t) && error is None,
        Err((code, message)) => text is None && error is Some && error->0.says(code, message),
    }
}

/// The text and the encoding of a transaction that was answered.
pub open spec fn tx_text(r: Result<GetTxReply, RpcError>) -> Option<(Seq<char>, Seq<char>)> {
    match r {
        Ok(t) => Some((t.tx@, t.encoding@)),
        Err(_) => None,
    }
}

/// The text and the encoding of a block that was answered.
pub open spec fn block_text(r: Result<GetBlockResponse, RpcError>) -> Option<
    (Seq<char>, Seq<char>),
> {
    match r {
        Ok(t) => Some((t.block@, t.encoding@)),
        Err(_) => None,
    }
}

/// Why there was no answer, if there was none.
pub open spec fn error_of<T>(r: Result<T, RpcError>) -> Option<RpcError> {
    match r {
        Ok(_) => None,
        Err(e) => Some(e),
    }
}

impl<S: ServiceState> RpcService<S> {
    /// Whether the state can be read.
    pub closed spec fn wf(&self) -> bool {
        self.service.wf()
    }

    /// The state that is read.
    pub closed spec fn stored(&self) -> crate::state::state::StateView {
        self.service.stored()
    }

    /// What addresses on the network start with.
    pub closed spec fn prefix(&self) -> Seq<char> {
        self.service.prefix()
    }

    /// The network.
    pub closed spec fn network(&self) -> u32 {
        self.service.network()
    }

    /// The asset that is staked on the primary network.
    pub closed spec fn asset(&self) -> Id {
        self.avax_asset_id
    }

    /// Calls `service` by name.
    pub fn new(service: Service<S>, avax_asset_id: Id) -> (r: RpcService<S>)
        requires
            service.wf(),
        ensures
            r.wf(),
            r.stored() == service.stored(),
            r.prefix() == service.prefix(),
            r.network() == service.network(),
            r.asset() == avax_asset_id,
    {
        RpcService { service, avax_asset_id }
    }

    /// The service.
    pub fn service(&self) -> (r: &Service<S>)
        requires
            self.wf(),
        ensures
            r.wf(),
            r.stored() == self.stored(),
            r.prefix() == self.prefix(),
            r.network() == self.network(),
    {
        &self.service
    }

    /// A transaction, written as the caller asks.
    pub fn get_tx(&self, args: &GetTxArgs) -> (r: Result<GetTxReply, RpcError>)
        requires
            self.wf(),
        ensures
            ({
                let txs = self.stored().chain.txs;
                if txs.contains_key(args.tx_id@) {
                    answers(tx_text(r), error_of(r), txs[args.tx_id@], args.encoding@)
                } else {
                    r is Err && r->Err_0.says(SERVER, not_found().text())
                }
            }),
    {
        let bytes = match self.service.get_tx_bytes(args.tx_id) {
            Ok(b) => b,
            Err(e) => {
                return Err(server_err(e));
            },
        };
        match encode_reply_bytes(bytes.as_slice(), args.encoding.as_str()) {
            Ok((tx, encoding)) => Ok(GetTxReply { tx, encoding }),
            Err(e) => Err(e),
        }
    }

    /// A block, written as the caller asks.
    pub fn get_block(&self, args: &GetBlockArgs) -> (r: Result<GetBlockResponse, RpcError>)
        requires
            self.wf(),
        ensures
            ({
                let blocks = self.stored().blocks;
                if blocks.contains_key(args.block_id@) {
                    answers(block_text(r), error_of(r), blocks[args.block_id@], args.encoding@)
                } else {
                    r is Err && r->Err_0.says(SERVER, not_found().text())
                }
            }),
    {
        let bytes = match self.service.get_block(args.block_id) {
            Ok(b) => b,
            Err(e) => {
                return Err(server_err(e));
            },
        };
        match encode_reply_bytes(bytes.as_slice(), args.encoding.as_str()) {
            Ok((block, encoding)) => Ok(GetBlockResponse { block, encoding }),
            Err(e) => Err(e),
        }
    }

    /// The accepted block at a height, written as the caller asks.
    pub fn get_block_by_height(&self, args: &GetBlockByHeightArgs) -> (r: Result<
        GetBlockResponse,
        RpcError,
    >)
        requires
            self.wf(),
        ensures
            ({
                let k = be(args.height as nat, 8);
                let index = self.stored().block_index;
                let blocks = self.stored().blocks;
                if !index.contains_key(k) {
                    r is Err && r->Err_0.says(
                        SERVER,
                        "service: "@ + ("no block at height "@ + decimal_text(args.height as nat)),
                    )
                } else if !blocks.contains_key(index[k]) {
                    r is Err && r->Err_0.says(SERVER, not_found().text())
                } else {
                    answers(block_text(r), error_of(r), blocks[index[k]], args.encoding@)
                }
            }),
    {
        let bytes = match self.service.get_block_by_height(args.height) {
            Ok(b) => b,
            Err(e) => {
                return Err(server_err(e));
            },
        };
        match encode_reply_bytes(bytes.as_slice(), args.encoding.as_str()) {
            Ok((block, encoding)) => Ok(GetBlockResponse { block, encoding }),
            Err(e) => Err(e),
        }
    }

    /// The asset that is staked on the primary network. Of other subnets it is
    /// not known.
    pub fn get_staking_asset_id(&self, args: &GetStakingAssetIDArgs) -> (r: Result<
        GetStakingAssetIDResponse,
        RpcError,
    >)
        ensures
            r is Ok <==> args.subnet_id@ == empty_id(),
            r matches Ok(a) ==> a.asset_id == self.asset(),
            r matches Err(e) ==> e.says(
                SERVER,
                "failed fetching subnet transformation for "@ + id_text(args.subnet_id@)
                    + ": not found"@,
            ),
    {
        if !args.subnet_id.is_empty() {
            let id = id_string(&args.subnet_id);
            let a = joined("failed fetching subnet transformation for ", id.as_str());
            return Err(RpcError::server(joined(a.as_str(), ": not found")));
        }
        Ok(GetStakingAssetIDResponse { asset_id: self.avax_asset_id })
    }
}

/// The names of the methods on the wire.
pub open spec fn method_names() -> Seq<Seq<char>> {
    seq![
        "platform.GetHeight"@,
        "platform.GetProposedHeight"@,
        "platform.GetTimestamp"@,
        "platform.GetCurrentSupply"@,
        "platform.GetCurrentValidators"@,
        "platform.GetL1Validator"@,
        "platform.GetValidatorsAt"@,
        "platform.GetFeeState"@,
        "platform.GetValidatorFeeState"@,
        "platform.ValidatedBy"@,
        "platform.Validates"@,
        "platform.GetTxStatus"@,
        "platform.GetTx"@,
        "platform.GetBlock"@,
        "platform.GetBlockByHeight"@,
        "platform.GetStakingAssetID"@,
    ]
}

/// A method of the service.
#[derive(Clone, Copy, Debug, PartialEq, Eq)]
pub enum Method {
    /// The height of the last accepted block.
    GetHeight,
    /// The height that proposals start from.
    GetProposedHeight,
    /// The chain's time.
    GetTimestamp,
    /// The supply of a subnet.
    GetCurrentSupply,
    /// The current validators of a subnet.
    GetCurrentValidators,
    /// A validator that pays as it goes.
    GetL1Validator,
    /// The validators of a subnet at a height.
    GetValidatorsAt,
    /// The state of the fees.
    GetFeeState,
    /// The state of the fees that validators pay.
    GetValidatorFeeState,
    /// The subnet that validates a chain.
    ValidatedBy,
    /// The chains that a subnet validates.
    Validates,
    /// The status of a transaction.
    GetTxStatus,
    /// A transaction.
    GetTx,
    /// A block by its id.
    GetBlock,
    /// A block by its height.
    GetBlockByHeight,
    /// The asset that a subnet stakes.
    GetStakingAssetID,
}

impl Method {
    /// The name of the method on the wire.
    pub open spec fn name(self) -> Seq<char> {
        match self {
            Method::GetHeight => "platform.GetHeight"@,
            Method::GetProposedHeight => "platform.GetProposedHeight"@,
            Method::GetTimestamp => "platform.GetTimestamp"@,
            Method::GetCurrentSupply => "platform.GetCurrentSupply"@,
            Method::GetCurrentValidators => "platform.GetCurrentValidators"@,
            Method::GetL1Validator => "platform.GetL1Validator"@,
            Method::GetValidatorsAt => "platform.GetValidatorsAt"@,
            Method::GetFeeState => "platform.GetFeeState"@,
            Method::GetValidatorFeeState => "platform.GetValidatorFeeState"@,
            Method::ValidatedBy => "platform.ValidatedBy"@,
            Method::Validates => "platform.Validates"@,
            Method::GetTxStatus => "platform.GetTxStatus"@,
            Method::GetTx => "platform.GetTx"@,
            Method::GetBlock => "platform.GetBlock"@,
            Method::GetBlockByHeight => "platform.GetBlockByHeight"@,
            Method::GetStakingAssetID => "platform.GetStakingAssetID"@,
        }
    }
}

/// The method at a place of the registry.
pub fn method_at(place: usize) -> (r: Option<Method>)
    ensures
        r is Some <==> place < method_names().len(),
        r matches Some(m) ==> m.name() == method_names()[place as int],
{
    match place {
        0 => Some(Method::GetHeight),
        1 => Some(Method::GetProposedHeight),
        2 => Some(Method::GetTimestamp),
        3 => Some(Method::GetCurrentSupply),
        4 => Some(Method::GetCurrentValidators),
        5 => Some(Method::GetL1Validator),
        6 => Some(Method::GetValidatorsAt),
        7 => Some(Method::GetFeeState),
        8 => Some(Method::GetValidatorFeeState),
        9 => Some(Method::ValidatedBy),
        10 => Some(Method::Validates),
        11 => Some(Method::GetTxStatus),
        12 => Some(Method::GetTx),
        13 => Some(Method::GetBlock),
        14 => Some(Method::GetBlockByHeight),
        15 => Some(Method::GetStakingAssetID),
        _ => None,
    }
}

/// The place of a method's name, told by its length and two of its letters.
spec fn place_of_name(w: Seq<char>) -> int {
    let n = w.len();
    if n == 14 {
        12
    } else if n == 17 {
        13
    } else if n == 18 {
        if w[9] == 'G' {
            0
        } else {
            10
        }
    } else if n == 20 {
        if w[9] == 'V' {
            9
        } else if w[12] == 'F' {
            7
        } else {
            11
        }
    } else if n == 21 {
        2
    } else if n == 23 {
        5
    } else if n == 24 {
        6
    } else if n == 25 {
        if w[12] == 'C' {
            3
        } else {
            14
        }
    } else if n == 26 {
        if w[12] == 'P' {
            1
        } else {
            15
        }
    } else if w[12] == 'C' {
        4
    } else {
        8
    }
}

/// A name behind `platform.` is its own key.
proof fn lemma_own_key(w: Seq<char>)
    requires
        w.len() > 9,
        w[0] == 'p',
        w[1] == 'l',
        w[2] == 'a',
        w[3] == 't',
        w[4] == 'f',
        w[5] == 'o',
        w[6] == 'r',
        w[7] == 'm',
        w[8] == '.',
    ensures
        wire_key(w) == w,
{
    reveal_strlit(".");
    reveal_with_fuel(place_of, 10);
    let s1 = w.drop_first();
    let s2 = s1.drop_first();
    let s3 = s2.drop_first();
    let s4 = s3.drop_first();
    let s5 = s4.drop_first();
    let s6 = s5.drop_first();
    let s7 = s6.drop_first();
    let s8 = s7.drop_first();
    assert(s8[0] == w[8]);
    assert(place_of(w, '.') == 8);
    assert(lowered(w.take(8)) =~= w.take(8));
    assert(wire_key(w) =~= w);
}

/// Every name is its own key, and stands at its own place.
proof fn lemma_method_names(i: int)
    requires
        0 <= i < 16,
    ensures
        wire_key(method_names()[i]) == method_names()[i],
        place_of_name(method_names()[i]) == i,
{
    reveal_strlit("platform.GetHeight");
    reveal_strlit("platform.GetProposedHeight");
    reveal_strlit("platform.GetTimestamp");
    reveal_strlit("platform.GetCurrentSupply");
    reveal_strlit("platform.GetCurrentValidators");
    reveal_strlit("platform.GetL1Validator");
    reveal_strlit("platform.GetValidatorsAt");
    reveal_strlit("platform.GetFeeState");
    reveal_strlit("platform.GetValidatorFeeState");
    reveal_strlit("platform.ValidatedBy");
    reveal_strlit("platform.Validates");
    reveal_strlit("platform.GetTxStatus");
    reveal_strlit("platform.GetTx");
    reveal_strlit("platform.GetBlock");
    reveal_strlit("platform.GetBlockByHeight");
    reveal_strlit("platform.GetStakingAssetID");
    lemma_own_key(method_names()[i]);
}

/// The keys of the methods, in the order of their names.
pub open spec fn method_keys() -> Seq<Seq<char>> {
    method_names().map_values(|m: Seq<char>| wire_key(m))
}

/// The methods of the service, each at the place of its name.
pub fn registry() -> (r: ServiceRegistry)
    ensures
        r.wf(),
        r@ == method_keys(),
{
    let names: [&str; 16] = [
        "platform.GetHeight",
        "platform.GetProposedHeight",
        "platform.GetTimestamp",
        "platform.GetCurrentSupply",
        "platform.GetCurrentValidators",
        "platform.GetL1Validator",
        "platform.GetValidatorsAt",
        "platform.GetFeeState",
        "platform.GetValidatorFeeState",
        "platform.ValidatedBy",
        "platform.Validates",
        "platform.GetTxStatus",
        "platform.GetTx",
        "platform.GetBlock",
        "platform.GetBlockByHeight",
        "platform.GetStakingAssetID",
    ];
    let mut r = ServiceRegistry::new();
    let mut i: usize = 0;
    let ghost all = method_names();
    assert forall|j: int| 0 <= j < 16 implies names@[j]@ == #[trigger] all[j] by {
    }
    assert(method_keys().take(0) =~= Seq::empty());
    while i < 16
        invariant
            i <= 16,
            all == method_names(),
            forall|j: int| 0 <= j < 16 ==> names@[j]@ == #[trigger] all[j],
            r.wf(),
            r@ == method_keys().take(i as int),
        decreases 16 - i,
    {
        let ghost before = r@;
        let _ = r.register(names[i]);
        proof {
            let key = wire_key(all[i as int]);
            assert(names@[i as int]@ == all[i as int]);
            if before.contains(key) {
                let x = before.index_of(key);
                assert(before[x] == wire_key(all[x]));
                lemma_method_names(x);
                lemma_method_names(i as int);
            }
            assert(before.push(key) =~= method_keys().take(i + 1));
        }
        i += 1;
    }
    assert(method_keys().take(16) =~= method_keys());
    r
}

/// Every method has a key of its own, so that a name is answered by no method
/// but the one at its place.
pub proof fn methods_have_keys_of_their_own(i: int, j: int)
    requires
        0 <= i < method_names().len(),
        0 <= j < method_names().len(),
        method_keys()[i] == method_keys()[j],
    ensures
        i == j,
{
    lemma_method_names(i);
    lemma_method_names(j);
}

} // verus!
