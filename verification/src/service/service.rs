//! The answers of the service. What others know, such as the height that
//! validators have reached, is handed in.
use vstd::prelude::*;

use crate::codec::be;
use crate::collections::ordmap::{Dup, Key, OrdMap};
use crate::crypto::{bls_compacted, PublicKey};
use crate::error::{joined, not_found, Error, Result};
use crate::ids::{empty_id, lemma_node_id_bytes, Id, NodeId};
use crate::service::pricing::{FeeConstants, Pricing};
use crate::service::state::ServiceState;
use crate::service::types::{ApiValidator, GetCurrentSupplyArgs, GetCurrentSupplyReply, GetCurrentValidatorsArgs, GetCurrentValidatorsReply, GetFeeStateReply, GetHeightResponse, GetL1ValidatorArgs, GetL1ValidatorReply, GetTimestampReply, GetTxStatusResponse, GetValidatorFeeStateReply, JsonGetValidatorOutput, ValidatedByResponse, ValidatesResponse};
use crate::state::chain::id_bytes;
use crate::status::Status;
use crate::text::{bech32, bech32_text, decimal, decimal_text, format_timestamp, hex_nc, hex_text, id_string, id_text, time_text};
use crate::txs::tx::Tx;
use crate::txs::unsigned::UnsignedTx;
use crate::wire::{default_codec, unversioned};

verus! {

/// A current validator, as those know it who keep the validators.
#[derive(Clone, Copy, Debug)]
pub struct CurrentValidator {
    /// The node.
    pub node_id: NodeId,
    /// The key, if there is one.
    pub public_key: Option<PublicKey>,
    /// The weight.
    pub weight: u64,
    /// When it started, in Unix seconds.
    pub start_time: u64,
    /// The least nonce that is accepted.
    pub min_nonce: u64,
    /// Whether it is an L1 validator.
    pub is_l1_validator: bool,
}

impl View for CurrentValidator {
    type V = CurrentValidator;

    open spec fn view(&self) -> CurrentValidator {
        *self
    }
}

/// A validator at some height, as those know it who keep the validators.
#[derive(Clone, Copy, Debug)]
pub struct KnownValidator {
    /// The key, if there is one.
    pub public_key: Option<PublicKey>,
    /// The weight.
    pub weight: u64,
}

impl View for KnownValidator {
    type V = KnownValidator;

    open spec fn view(&self) -> KnownValidator {
        *self
    }
}

/// What a [`JsonGetValidatorOutput`] says.
#[verifier::ext_equal]
pub struct OutputView {
    /// The compressed key, if there is one.
    pub public_key: Option<Seq<char>>,
    /// The weight.
    pub weight: u64,
}

impl View for JsonGetValidatorOutput {
    type V = OutputView;

    open spec fn view(&self) -> OutputView {
        OutputView { public_key: text_of(self.public_key), weight: self.weight }
    }
}

/// What an [`ApiValidator`] says.
#[verifier::ext_equal]
pub struct ApiView {
    /// What added the validator.
    pub tx_id: Seq<u8>,
    /// The node.
    pub node_id: Seq<u8>,
    /// The weight.
    pub weight: u64,
    /// When it started.
    pub start_time: u64,
    /// The compressed key, if there is one.
    pub public_key: Option<Seq<char>>,
    /// The validation, of an L1 validator.
    pub validation_id: Option<Seq<u8>>,
    /// The least nonce that is accepted, of an L1 validator.
    pub min_nonce: Option<u64>,
}

impl View for ApiValidator {
    type V = ApiView;

    open spec fn view(&self) -> ApiView {
        ApiView {
            tx_id: self.tx_id@,
            node_id: self.node_id@,
            weight: self.weight,
            start_time: self.start_time,
            public_key: text_of(self.public_key),
            validation_id: match self.validation_id {
                Some(id) => Some(id@),
                None => None,
            },
            min_nonce: self.min_nonce,
        }
    }
}

/// The text, if there is one.
pub open spec fn text_of(s: Option<String>) -> Option<Seq<char>> {
    match s {
        Some(t) => Some(t@),
        None => None,
    }
}

/// How a key is shown: compressed, and to the base sixteen.
pub open spec fn key_text(k: Option<PublicKey>) -> Option<Seq<char>> {
    match k {
        Some(p) => Some("0x"@ + hex_text(p.compressed@)),
        None => None,
    }
}

fn show_key(k: &Option<PublicKey>) -> (r: Option<String>)
    ensures
        text_of(r) == key_text(*k),
{
    match k {
        Some(p) => {
            let c = p.compress();
            Some(hex_nc(c.as_slice()))
        },
        None => None,
    }
}

/// How a current validator is shown.
pub open spec fn shown(id: Seq<u8>, v: CurrentValidator) -> ApiView {
    ApiView {
        tx_id: id,
        node_id: v.node_id@,
        weight: v.weight,
        start_time: v.start_time,
        public_key: key_text(v.public_key),
        validation_id: if v.is_l1_validator {
            Some(id)
        } else {
            None
        },
        min_nonce: if v.is_l1_validator {
            Some(v.min_nonce)
        } else {
            None
        },
    }
}

/// Whether `node` is asked for: every node is where none are named.
pub open spec fn asked_for(nodes: Seq<NodeId>, node: NodeId) -> bool {
    nodes.len() == 0 || nodes.contains(node)
}

/// How those of the first `n` validators are shown that are asked for.
pub open spec fn shown_upto(
    ids: Seq<Seq<u8>>,
    vs: Seq<CurrentValidator>,
    nodes: Seq<NodeId>,
    n: nat,
) -> Seq<ApiView>
    decreases n,
{
    if n == 0 {
        Seq::empty()
    } else {
        let before = shown_upto(ids, vs, nodes, (n - 1) as nat);
        if asked_for(nodes, vs[n - 1].node_id) {
            before.push(shown(ids[n - 1], vs[n - 1]))
        } else {
            before
        }
    }
}

/// How the key of an L1 validator is shown: compressed, if there is one that can
/// be.
pub open spec fn l1_key_text(key: Seq<u8>) -> Option<Seq<char>> {
    if key.len() == 96 && bls_compacted(key) is Some {
        Some("0x"@ + hex_text(bls_compacted(key)->0))
    } else {
        None
    }
}

/// The failure of the service, for the reason given.
pub open spec fn is_service_error(e: Error, message: Seq<char>) -> bool {
    e matches Error::Service(s) && s@ == message
}

fn failure(what: &str, why: &str) -> (r: Error)
    ensures
        is_service_error(r, what@ + why@),
{
    Error::Service(joined(what, why))
}

fn among(nodes: &Vec<NodeId>, node: &NodeId) -> (r: bool)
    ensures
        r == nodes@.contains(*node),
{
    let n: usize = nodes.len();
    let mut i: usize = 0;
    while i < n
        invariant
            i <= n,
            n == nodes@.len(),
            forall|j: int| 0 <= j < i ==> nodes@[j] != *node,
        decreases n - i,
    {
        proof {
            lemma_node_id_bytes(nodes@[i as int], *node);
        }
        if nodes[i].same(node) {
            assert(nodes@[i as int] == *node);
            return true;
        }
        i += 1;
    }
    false
}

/// Whether the stored transaction `subnet` creates a subnet, and why not. The
/// primary network was not created by one.
pub open spec fn subnet_problem(txs: Map<Seq<u8>, Seq<u8>>, subnet: Seq<u8>, e: Error) -> bool {
    if !txs.contains_key(subnet) {
        is_service_error(
            e,
            "problem retrieving subnet \""@ + id_text(subnet) + "\": "@ + not_found().text(),
        )
    } else {
        match unversioned::<Tx>(262_144, txs[subnet]) {
            Err(c) => e == Error::Codec(c),
            Ok(_) => is_service_error(e, "\""@ + id_text(subnet) + "\" is not a subnet"@),
        }
    }
}

/// Whether `subnet` is the primary network, or the stored transaction of that id
/// creates a subnet.
pub open spec fn is_subnet(txs: Map<Seq<u8>, Seq<u8>>, subnet: Seq<u8>) -> bool {
    subnet == empty_id() || (txs.contains_key(subnet) && match unversioned::<Tx>(
        262_144,
        txs[subnet],
    ) {
        Ok(v) => v.unsigned is CreateSubnet,
        Err(_) => false,
    })
}

/// Answers questions about the chain.
pub struct Service<S: ServiceState> {
    state: S,
    hrp: String,
    network_id: u32,
}

impl<S: ServiceState> Service<S> {
    /// Whether the state can be read.
    pub closed spec fn wf(&self) -> bool {
        self.state.readable()
    }

    /// The state that is read.
    pub closed spec fn stored(&self) -> crate::state::state::StateView {
        self.state.stored()
    }

    /// What addresses on the network start with.
    pub closed spec fn prefix(&self) -> Seq<char> {
        self.hrp@
    }

    /// The network.
    pub closed spec fn network(&self) -> u32 {
        self.network_id
    }

    /// Answers from `state`, on the network `network_id`, whose addresses start
    /// with `hrp`.
    pub fn new(state: S, hrp: String, network_id: u32) -> (r: Service<S>)
        requires
            state.readable(),
        ensures
            r.wf(),
            r.stored() == state.stored(),
            r.prefix() == hrp@,
            r.network() == network_id,
    {
        Service { state, hrp, network_id }
    }

    /// The height of the last accepted block. `current` is what those say who
    /// keep the validators.
    pub fn get_height(&self, current: core::result::Result<u64, String>) -> (r: Result<
        GetHeightResponse,
    >)
        ensures
            match current {
                Ok(h) => r is Ok && r->Ok_0.height == h,
                Err(why) => r is Err && is_service_error(
                    r->Err_0,
                    "get current height: "@ + why@,
                ),
            },
    {
        match current {
            Ok(height) => Ok(GetHeightResponse { height }),
            Err(why) => Err(failure("get current height: ", why.as_str())),
        }
    }

    /// The height that a new block would name. `minimum` is what those say who
    /// keep the validators.
    pub fn get_proposed_height(&self, minimum: core::result::Result<u64, String>) -> (r: Result<
        GetHeightResponse,
    >)
        ensures
            match minimum {
                Ok(h) => r is Ok && r->Ok_0.height == h,
                Err(why) => r is Err && is_service_error(
                    r->Err_0,
                    "get minimum height: "@ + why@,
                ),
            },
    {
        match minimum {
            Ok(height) => Ok(GetHeightResponse { height }),
            Err(why) => Err(failure("get minimum height: ", why.as_str())),
        }
    }

    /// The time of the chain.
    pub fn get_timestamp(&self) -> (r: GetTimestampReply)
        requires
            self.wf(),
        ensures
            r.timestamp@ == time_text(self.stored().chain.timestamp),
    {
        GetTimestampReply { timestamp: format_timestamp(self.state.timestamp()) }
    }

    /// The supply of a subnet. `current` is the height of the last accepted
    /// block.
    pub fn get_current_supply(
        &self,
        args: &GetCurrentSupplyArgs,
        current: core::result::Result<u64, String>,
    ) -> (r: Result<GetCurrentSupplyReply>)
        requires
            self.wf(),
        ensures
            match current {
                Ok(h) => r is Ok && r->Ok_0.height == h && r->Ok_0.supply
                    == self.stored().chain.supply[args.subnet_id@],
                Err(why) => r is Err && is_service_error(
                    r->Err_0,
                    "get current height: "@ + why@,
                ),
            },
    {
        let supply: u64 = match self.state.current_supply(args.subnet_id) {
            Ok(s) => s,
            Err(e) => {
                return Err(e);
            },
        };
        match current {
            Ok(height) => Ok(GetCurrentSupplyReply { supply, height }),
            Err(why) => Err(failure("get current height: ", why.as_str())),
        }
    }

    /// The current validators that are asked for, in the order of their ids.
    /// `set` is the validators of the subnet, by what added them.
    pub fn get_current_validators(
        &self,
        args: &GetCurrentValidatorsArgs,
        set: core::result::Result<OrdMap<Id, CurrentValidator>, String>,
    ) -> (r: Result<GetCurrentValidatorsReply>)
        ensures
            match set {
                Ok(m) => r is Ok && r->Ok_0.validators@.map_values(|v: ApiValidator| v@)
                    == shown_upto(m.keys(), m.vals(), args.node_ids@, m.keys().len()),
                Err(why) => r is Err && is_service_error(
                    r->Err_0,
                    "get current validators: "@ + why@,
                ),
            },
    {
        let set = match set {
            Ok(m) => m,
            Err(why) => {
                return Err(failure("get current validators: ", why.as_str()));
            },
        };
        let n: usize = set.len();
        let mut validators: Vec<ApiValidator> = Vec::new();
        let mut i: usize = 0;
        assert(validators@.map_values(|v: ApiValidator| v@) =~= Seq::empty());
        while i < n
            invariant
                i <= n,
                n == set.keys().len(),
                n == set.vals().len(),
                validators@.map_values(|v: ApiValidator| v@) == shown_upto(
                    set.keys(),
                    set.vals(),
                    args.node_ids@,
                    i as nat,
                ),
            decreases n - i,
        {
            let id = *set.key_at(i);
            let v = *set.val_at(i);
            let ghost before = validators@;
            if args.node_ids.len() == 0 || among(&args.node_ids, &v.node_id) {
                let entry = ApiValidator {
                    tx_id: id,
                    node_id: v.node_id,
                    weight: v.weight,
                    start_time: v.start_time,
                    public_key: show_key(&v.public_key),
                    validation_id: if v.is_l1_validator {
                        Some(id)
                    } else {
                        None
                    },
                    min_nonce: if v.is_l1_validator {
                        Some(v.min_nonce)
                    } else {
                        None
                    },
                };
                let ghost ev = entry@;
                validators.push(entry);
                assert(validators@.map_values(|v: ApiValidator| v@) =~= before.map_values(
                    |v: ApiValidator| v@,
                ).push(ev));
                assert(ev =~= shown(set.keys()[i as int], set.vals()[i as int]));
            }
            i += 1;
        }
        Ok(GetCurrentValidatorsReply { validators })
    }

    /// An L1 validator. `current` is the height of the last accepted block.
    pub fn get_l1_validator(
        &self,
        args: &GetL1ValidatorArgs,
        current: core::result::Result<u64, String>,
    ) -> (r: Result<GetL1ValidatorReply>)
        requires
            self.wf(),
        ensures
            ({
                let all = self.stored().chain.l1_validators;
                if !all.contains_key(args.validation_id@) {
                    r is Err && r->Err_0 == not_found()
                } else {
                    let v = all[args.validation_id@];
                    match current {
                        Ok(h) => {
                            &&& r is Ok
                            &&& r->Ok_0.node_id@ == v.node_id
                            &&& r->Ok_0.weight == v.weight
                            &&& r->Ok_0.start_time == v.start_time
                            &&& r->Ok_0.validation_id@ == v.validation_id
                            &&& text_of(r->Ok_0.public_key) == l1_key_text(v.public_key)
                            &&& r->Ok_0.min_nonce == v.min_nonce
                            &&& r->Ok_0.subnet_id@ == v.subnet_id
                            &&& r->Ok_0.height == h
                        },
                        Err(why) => r is Err && is_service_error(
                            r->Err_0,
                            "get current height: "@ + why@,
                        ),
                    }
                }
            }),
    {
        let v = match self.state.get_l1_validator(args.validation_id) {
            Ok(v) => v,
            Err(e) => {
                return Err(e);
            },
        };
        let height: u64 = match current {
            Ok(h) => h,
            Err(why) => {
                return Err(failure("get current height: ", why.as_str()));
            },
        };
        let public_key: Option<String> = if v.public_key.len() == 0 {
            None
        } else {
            match PublicKey::from_uncompressed(v.public_key.as_slice()) {
                Some(k) => {
                    let c = k.compress();
                    Some(hex_nc(c.as_slice()))
                },
                None => None,
            }
        };
        Ok(
            GetL1ValidatorReply {
                node_id: v.node_id,
                weight: v.weight,
                start_time: v.start_time,
                validation_id: v.validation_id,
                public_key,
                min_nonce: v.min_nonce,
                subnet_id: v.subnet_id,
                height,
            },
        )
    }

    /// The validators at `height`. `set` is what those say who keep the
    /// validators.
    pub fn get_validators_at(
        &self,
        height: u64,
        set: core::result::Result<OrdMap<NodeId, KnownValidator>, String>,
    ) -> (r: Result<OrdMap<NodeId, JsonGetValidatorOutput>>)
        ensures
            match set {
                Ok(m) => r is Ok && r->Ok_0@ == Map::new(
                    |k: Seq<u8>| m@.contains_key(k),
                    |k: Seq<u8>|
                        OutputView {
                            public_key: key_text(m@[k].public_key),
                            weight: m@[k].weight,
                        },
                ),
                Err(why) => r is Err && is_service_error(
                    r->Err_0,
                    "get validator set at "@ + decimal_text(height as nat) + ": "@ + why@,
                ),
            },
    {
        let set = match set {
            Ok(m) => m,
            Err(why) => {
                let h = decimal(height);
                let a = joined("get validator set at ", h.as_str());
                let b = joined(a.as_str(), ": ");
                return Err(failure(b.as_str(), why.as_str()));
            },
        };
        let n: usize = set.len();
        let ghost ks = set.keys();
        let mut out: OrdMap<NodeId, JsonGetValidatorOutput> = OrdMap::new();
        let mut i: usize = 0;
        while i < n
            invariant
                i <= n,
                n == ks.len(),
                ks == set.keys(),
                n == set.vals().len(),
                forall|x: int|
                    0 <= x < n ==> set@.contains_key(#[trigger] ks[x]) && set@[ks[x]]
                        == set.vals()[x],
                forall|k: Seq<u8>| #[trigger] set@.contains_key(k) ==> ks.contains(k),
                forall|k: Seq<u8>| #[trigger]
                    out@.contains_key(k) ==> set@.contains_key(k) && out@[k] == (OutputView {
                        public_key: key_text(set@[k].public_key),
                        weight: set@[k].weight,
                    }),
                forall|x: int| 0 <= x < i ==> out@.contains_key(#[trigger] ks[x]),
            decreases n - i,
        {
            let v = *set.val_at(i);
            let entry = JsonGetValidatorOutput {
                public_key: show_key(&v.public_key),
                weight: v.weight,
            };
            assert(set@.contains_key(ks[i as int]));
            out.insert(*set.key_at(i), entry);
            i += 1;
        }
        proof {
            let want = Map::new(
                |k: Seq<u8>| set@.contains_key(k),
                |k: Seq<u8>|
                    OutputView {
                        public_key: key_text(set@[k].public_key),
                        weight: set@[k].weight,
                    },
            );
            assert forall|k: Seq<u8>| #[trigger] want.contains_key(k) implies out@.contains_key(
                k,
            ) by {
                assert(ks.contains(k));
                assert(out@.contains_key(ks[ks.index_of(k)]));
            }
            assert(out@ =~= want);
        }
        Ok(out)
    }

    /// The state that the gas price follows from, and the price that `pricing`
    /// gives at its excess.
    pub fn get_fee_state<P: Pricing>(&self, pricing: &P, c: &FeeConstants) -> (r: GetFeeStateReply)
        requires
            self.wf(),
        ensures
            r.capacity == self.stored().chain.fee_state.capacity,
            r.excess == self.stored().chain.fee_state.excess,
            call_ensures(
                P::calculate_price,
                (pricing, c.gas_min_price, self.stored().chain.fee_state.excess, c.gas_k),
                r.price,
            ),
            r.timestamp@ == time_text(self.stored().chain.timestamp),
    {
        let s = self.state.fee_state();
        GetFeeStateReply {
            capacity: s.capacity,
            excess: s.excess,
            price: pricing.calculate_price(c.gas_min_price, s.excess, c.gas_k),
            timestamp: format_timestamp(self.state.timestamp()),
        }
    }

    /// How the excess sets the fees of L1 validators on the network.
    pub fn validator_fee_k(&self, c: &FeeConstants) -> (r: u64)
        ensures
            r == c.validator_k(self.network()),
    {
        if self.network_id == 5 {
            c.validator_k_fuji
        } else {
            c.validator_k_mainnet
        }
    }

    /// The state that the fees of L1 validators follow from, and the price that
    /// `pricing` gives at its excess.
    pub fn get_validator_fee_state<P: Pricing>(&self, pricing: &P, c: &FeeConstants) -> (r:
        GetValidatorFeeStateReply)
        requires
            self.wf(),
        ensures
            r.excess == self.stored().chain.l1_validator_excess,
            call_ensures(
                P::calculate_price,
                (
                    pricing,
                    c.validator_min_price,
                    self.stored().chain.l1_validator_excess,
                    c.validator_k(self.network()),
                ),
                r.price,
            ),
            r.timestamp@ == time_text(self.stored().chain.timestamp),
    {
        let excess = self.state.l1_validator_excess();
        let k = self.validator_fee_k(c);
        GetValidatorFeeStateReply {
            excess,
            price: pricing.calculate_price(c.validator_min_price, excess, k),
            timestamp: format_timestamp(self.state.timestamp()),
        }
    }

    /// The subnet that validates a chain. `subnet` is what those say who keep
    /// the validators.
    pub fn validated_by(&self, subnet: core::result::Result<Id, String>) -> (r: Result<
        ValidatedByResponse,
    >)
        ensures
            match subnet {
                Ok(id) => r is Ok && r->Ok_0.subnet_id == id,
                Err(why) => r is Err && is_service_error(r->Err_0, "get subnet id: "@ + why@),
            },
    {
        match subnet {
            Ok(subnet_id) => Ok(ValidatedByResponse { subnet_id }),
            Err(why) => Err(failure("get subnet id: ", why.as_str())),
        }
    }

    /// The chains that a subnet validates.
    pub fn validates(&self, subnet: Id) -> (r: Result<ValidatesResponse>)
        requires
            self.wf(),
        ensures
            r is Ok <==> is_subnet(self.stored().chain.txs, subnet@),
            r matches Ok(v) ==> id_bytes(v.blockchain_ids@) == self.stored().chain.chains[subnet@],
            r matches Err(e) ==> subnet_problem(self.stored().chain.txs, subnet@, e),
    {
        if !subnet.is_empty() {
            let bytes = match self.state.get_tx(subnet) {
                Ok(b) => b,
                Err(e) => {
                    let id = id_string(&subnet);
                    let a = joined("problem retrieving subnet \"", id.as_str());
                    let b = joined(a.as_str(), "\": ");
                    let why = e.message();
                    return Err(failure(b.as_str(), why.as_str()));
                },
            };
            let codec = default_codec();
            match Tx::parse(&codec, bytes.as_slice()) {
                Ok(tx) => {
                    let created = match &tx.unsigned {
                        UnsignedTx::CreateSubnet(_) => true,
                        _ => false,
                    };
                    if !created {
                        let id = id_string(&subnet);
                        let a = joined("\"", id.as_str());
                        return Err(failure(a.as_str(), "\" is not a subnet"));
                    }
                },
                Err(e) => {
                    return Err(Error::Codec(e));
                },
            }
        }
        Ok(ValidatesResponse { blockchain_ids: self.state.chains(subnet) })
    }

    /// What became of a transaction: one that is stored was committed, and any
    /// other is not known.
    pub fn get_tx_status(&self, tx: Id) -> (r: GetTxStatusResponse)
        requires
            self.wf(),
        ensures
            r.status == if self.stored().chain.txs.contains_key(tx@) {
                Status::Committed
            } else {
                Status::Unknown
            },
            r.reason@ == Seq::<char>::empty(),
    {
        match self.state.get_tx(tx) {
            Ok(_) => GetTxStatusResponse { status: Status::Committed, reason: String::new() },
            Err(_) => GetTxStatusResponse { status: Status::Unknown, reason: String::new() },
        }
    }

    /// The bytes of a transaction.
    pub fn get_tx_bytes(&self, tx: Id) -> (r: Result<Vec<u8>>)
        requires
            self.wf(),
        ensures
            r is Ok <==> self.stored().chain.txs.contains_key(tx@),
            r matches Ok(b) ==> b@ == self.stored().chain.txs[tx@],
            r matches Err(e) ==> e == not_found(),
    {
        self.state.get_tx(tx)
    }

    /// The bytes of a block.
    pub fn get_block(&self, id: Id) -> (r: Result<Vec<u8>>)
        requires
            self.wf(),
        ensures
            r is Ok <==> self.stored().blocks.contains_key(id@),
            r matches Ok(b) ==> b@ == self.stored().blocks[id@],
            r matches Err(e) ==> e == not_found(),
    {
        self.state.get_block(id)
    }

    /// The bytes of the accepted block at a height.
    pub fn get_block_by_height(&self, height: u64) -> (r: Result<Vec<u8>>)
        requires
            self.wf(),
        ensures
            ({
                let k = be(height as nat, 8);
                let index = self.stored().block_index;
                if !index.contains_key(k) {
                    r is Err && is_service_error(
                        r->Err_0,
                        "no block at height "@ + decimal_text(height as nat),
                    )
                } else if !self.stored().blocks.contains_key(index[k]) {
                    r is Err && r->Err_0 == not_found()
                } else {
                    r is Ok && r->Ok_0@ == self.stored().blocks[index[k]]
                }
            }),
    {
        match self.state.get_block_id_at_height(height) {
            Some(id) => self.state.get_block(id),
            None => {
                let h = decimal(height);
                Err(failure("no block at height ", h.as_str()))
            },
        }
    }

    /// How an address on the chain is shown.
    pub fn format_address(&self, addr: &[u8]) -> (r: Result<String>)
        ensures
            match bech32_text(self.prefix(), addr@) {
                Ok(t) => r is Ok && r->Ok_0@ == "P-"@ + t,
                Err(why) => r is Err && is_service_error(r->Err_0, "format address: "@ + why),
            },
    {
        match bech32(self.hrp.as_str(), addr) {
            Ok(t) => Ok(joined("P-", t.as_str())),
            Err(why) => Err(failure("format address: ", why.as_str())),
        }
    }
}

} // verus!
