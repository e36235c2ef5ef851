//! Chain data as it arrives, the records made of it, and the rows that are
//! stored.

use crate::encoding::{
    account_id_text, block_id_text, height_to_i64, hex_upper, is_chain_height, public_key_hex,
    rfc3339_text, time_text,
};
use vstd::prelude::*;

verus! {

/// An instant as seconds and nanoseconds after the Unix epoch.
#[derive(Debug, Clone, Copy, PartialEq, Eq, Structural)]
pub struct Timestamp {
    pub seconds: i64,
    pub nanos: u32,
}

/// Metadata of one block as the chain reports it, in plain values.
#[derive(Debug, Clone, PartialEq, Eq)]
pub struct BlockMeta {
    /// Bytes of the block's hash
    pub block_hash: Vec<u8>,
    /// Block size
    pub block_size: i64,
    /// Height of the block
    pub height: u64,
    /// Time of the block
    pub time: Timestamp,
    /// Bytes of the proposer's address
    pub proposer_address: Vec<u8>,
    /// Number of transactions in the block
    pub num_txs: i64,
}

/// One validator of a validator set as the chain reports it, in plain
/// values.
#[derive(Debug, Clone, PartialEq, Eq)]
pub struct ValidatorMeta {
    /// Bytes of the validator's account address
    pub address: Vec<u8>,
    /// Bytes of the validator's Ed25519 public key
    pub pub_key: Vec<u8>,
    /// Voting power
    pub power: u64,
    /// Validator name
    pub name: Option<String>,
    /// Proposer priority
    pub proposer_priority: i64,
}

/// One peer of the node's network as the chain client reports it.
#[derive(Debug, Clone, PartialEq, Eq)]
pub struct PeerMeta {
    /// ID of the peer's node
    pub node_id: String,
    /// Address the peer is connected from
    pub remote_ip: String,
    /// Score of the peer
    pub peer_score: i64,
}

/// The record of one block.
#[derive(Debug, Clone, PartialEq, Eq)]
pub struct BlockInfo {
    /// ID of the block
    pub block_id: String,
    /// Height of the block
    pub height: i64,
    /// Block size
    pub block_size: i64,
    /// Current block time
    pub time: String,
    /// Address of the validator that proposed the block
    pub proposer_address: String,
    /// Number of transactions in the block
    pub num_txs: i64,
}

/// A block record as a mathematical value.
pub struct BlockInfoView {
    pub block_id: Seq<char>,
    pub height: int,
    pub block_size: int,
    pub time: Seq<char>,
    pub proposer_address: Seq<char>,
    pub num_txs: int,
}

impl View for BlockInfo {
    type V = BlockInfoView;

    open spec fn view(&self) -> BlockInfoView {
        BlockInfoView {
            block_id: self.block_id@,
            height: self.height as int,
            block_size: self.block_size as int,
            time: self.time@,
            proposer_address: self.proposer_address@,
            num_txs: self.num_txs as int,
        }
    }
}

/// The record of one validator in the validator set of one height.
#[derive(Debug, Clone, PartialEq, Eq)]
pub struct ValidatorInfo {
    /// Validator account address
    pub address: String,
    /// Height of the validator set
    pub block_height: i64,
    /// Validator public key
    pub pub_key: String,
    /// Validator voting power
    pub power: u64,
    /// Validator name
    pub name: Option<String>,
    /// Validator proposer priority
    pub proposer_priority: i64,
}

/// A validator record as a mathematical value.
pub struct ValidatorInfoView {
    pub address: Seq<char>,
    pub block_height: int,
    pub pub_key: Seq<char>,
    pub power: int,
    pub name: Option<Seq<char>>,
    pub proposer_priority: int,
}

/// The text of an optional string.
pub open spec fn text_of(name: Option<String>) -> Option<Seq<char>> {
    match name {
        Some(text) => Some(text@),
        None => None,
    }
}

impl View for ValidatorInfo {
    type V = ValidatorInfoView;

    open spec fn view(&self) -> ValidatorInfoView {
        ValidatorInfoView {
            address: self.address@,
            block_height: self.block_height as int,
            pub_key: self.pub_key@,
            power: self.power as int,
            name: text_of(self.name),
            proposer_priority: self.proposer_priority as int,
        }
    }
}

/// A peer of the node, seen while `block_height` was indexed. It is stored
/// as it is, as a row of the table `peers`.
#[derive(Debug, Clone, PartialEq, Eq)]
pub struct PeerInfo {
    pub block_height: i64,
    pub node_id: String,
    pub remote_ip: String,
    pub peer_score: i64,
}

/// A peer record as a mathematical value.
pub struct PeerInfoView {
    pub block_height: int,
    pub node_id: Seq<char>,
    pub remote_ip: Seq<char>,
    pub peer_score: int,
}

impl View for PeerInfo {
    type V = PeerInfoView;

    open spec fn view(&self) -> PeerInfoView {
        PeerInfoView {
            block_height: self.block_height as int,
            node_id: self.node_id@,
            remote_ip: self.remote_ip@,
            peer_score: self.peer_score as int,
        }
    }
}

/// A row of the table `blocks`.
#[derive(Debug, Clone, PartialEq, Eq)]
pub struct BlockRow {
    pub block_height: i64,
    pub block_id: String,
    pub time: String,
    pub num_txs: i64,
    pub proposer_address: String,
}

/// A row of `blocks` as a mathematical value.
pub struct BlockRowView {
    pub block_height: int,
    pub block_id: Seq<char>,
    pub time: Seq<char>,
    pub num_txs: int,
    pub proposer_address: Seq<char>,
}

impl View for BlockRow {
    type V = BlockRowView;

    open spec fn view(&self) -> BlockRowView {
        BlockRowView {
            block_height: self.block_height as int,
            block_id: self.block_id@,
            time: self.time@,
            num_txs: self.num_txs as int,
            proposer_address: self.proposer_address@,
        }
    }
}

/// A row of the table `validators`.
#[derive(Debug, Clone, PartialEq, Eq)]
pub struct ValidatorRow {
    pub block_height: i64,
    pub address: String,
    pub name: String,
    pub voting_power: i64,
    pub proposer_priority: i64,
}

/// A row of `validators` as a mathematical value.
pub struct ValidatorRowView {
    pub block_height: int,
    pub address: Seq<char>,
    pub name: Seq<char>,
    pub voting_power: int,
    pub proposer_priority: int,
}

impl View for ValidatorRow {
    type V = ValidatorRowView;

    open spec fn view(&self) -> ValidatorRowView {
        ValidatorRowView {
            block_height: self.block_height as int,
            address: self.address@,
            name: self.name@,
            voting_power: self.voting_power as int,
            proposer_priority: self.proposer_priority as int,
        }
    }
}

/// Whether a record can be made of `meta`: its hash is empty or 32 bytes
/// long, its height is one of the chain, its time has a text form and its
/// proposer address is 20 bytes long.
pub open spec fn block_meta_is_valid(meta: BlockMeta) -> bool {
    &&& meta.block_hash@.len() == 0 || meta.block_hash@.len() == 32
    &&& is_chain_height(meta.height as int)
    &&& rfc3339_text(meta.time.seconds as int, meta.time.nanos as int) is Some
    &&& meta.proposer_address@.len() == 20
}

/// The record of a valid `meta`: hash and proposer in upper-case
/// hexadecimal, the time as RFC 3339 text, the numbers unchanged.
pub open spec fn block_info_of(meta: BlockMeta) -> BlockInfoView {
    BlockInfoView {
        block_id: hex_upper(meta.block_hash@),
        height: meta.height as int,
        block_size: meta.block_size as int,
        time: rfc3339_text(meta.time.seconds as int, meta.time.nanos as int).unwrap(),
        proposer_address: hex_upper(meta.proposer_address@),
        num_txs: meta.num_txs as int,
    }
}

/// The records of `metas`, one for one.
pub open spec fn block_infos_of(metas: Seq<BlockMeta>) -> Seq<BlockInfoView> {
    Seq::new(metas.len(), |i: int| block_info_of(metas[i]))
}

/// The views of a sequence of values.
pub open spec fn views_of<T: View>(items: Seq<T>) -> Seq<T::V> {
    Seq::new(items.len(), |i: int| items[i]@)
}

/// The row that is stored for a block record: the record without its size.
pub open spec fn block_row_of(info: BlockInfoView) -> BlockRowView {
    BlockRowView {
        block_height: info.height,
        block_id: info.block_id,
        time: info.time,
        num_txs: info.num_txs,
        proposer_address: info.proposer_address,
    }
}

impl BlockInfo {
    /// A record of the given values.
    pub fn new(
        block_id: String,
        height: i64,
        block_size: i64,
        time: String,
        proposer_address: String,
        num_txs: i64,
    ) -> (res: BlockInfo)
        ensures
            res@ == (BlockInfoView {
                block_id: block_id@,
                height: height as int,
                block_size: block_size as int,
                time: time@,
                proposer_address: proposer_address@,
                num_txs: num_txs as int,
            }),
    {
        BlockInfo { block_id, height, block_size, time, proposer_address, num_txs }
    }

    /// The record of a block's metadata, `None` where the metadata is not
    /// valid.
    pub fn from(block: BlockMeta) -> (res: Option<BlockInfo>)
        ensures
            res is Some <==> block_meta_is_valid(block),
            res matches Some(info) ==> info@ == block_info_of(block),
    {
        let block_id = match block_id_text(&block.block_hash) {
            Some(text) => text,
            None => {
                return None;
            },
        };
        let height = match height_to_i64(block.height) {
            Some(height) => height,
            None => {
                return None;
            },
        };
        let time = match time_text(block.time.seconds, block.time.nanos) {
            Some(text) => text,
            None => {
                return None;
            },
        };
        let proposer_address = match account_id_text(&block.proposer_address) {
            Some(text) => text,
            None => {
                return None;
            },
        };
        Some(
            BlockInfo::new(
                block_id,
                height,
                block.block_size,
                time,
                proposer_address,
                block.num_txs,
            ),
        )
    }

    /// The records of a chain response, in its order; `None` where one of
    /// its items is not valid.
    pub fn from_metas(metas: Vec<BlockMeta>) -> (res: Option<Vec<BlockInfo>>)
        ensures
            res is Some <==> forall|i: int| 0 <= i < metas@.len() ==> block_meta_is_valid(metas@[i]),
            res matches Some(infos) ==> views_of(infos@) == block_infos_of(metas@),
    {
        let ghost all = metas@;
        let mut infos: Vec<BlockInfo> = Vec::new();
        for meta in it: metas
            invariant
                it.seq() == all,
                infos@.len() == it.index(),
                forall|i: int| 0 <= i < it.index() ==> block_meta_is_valid(all[i]),
                forall|i: int| 0 <= i < infos@.len() ==> (#[trigger] infos@[i])@ == block_info_of(all[i]),
        {
            match BlockInfo::from(meta) {
                Some(info) => {
                    infos.push(info);
                },
                None => {
                    return None;
                },
            }
        }
        assert(views_of(infos@) =~= block_infos_of(metas@));
        Some(infos)
    }

    /// The row that is stored for this record.
    pub fn row(&self) -> (res: BlockRow)
        ensures
            res@ == block_row_of(self@),
    {
        BlockRow {
            block_height: self.height,
            block_id: self.block_id.clone(),
            time: self.time.clone(),
            num_txs: self.num_txs,
            proposer_address: self.proposer_address.clone(),
        }
    }
}

/// Whether a record can be made of `meta`: its address is 20 bytes long and
/// its key 32.
pub open spec fn validator_meta_is_valid(meta: ValidatorMeta) -> bool {
    &&& meta.address@.len() == 20
    &&& meta.pub_key@.len() == 32
}

/// The record of a valid `meta` in the validator set of `block_height`:
/// address and key in upper-case hexadecimal, the rest unchanged.
pub open spec fn validator_info_of(meta: ValidatorMeta, block_height: int) -> ValidatorInfoView {
    ValidatorInfoView {
        address: hex_upper(meta.address@),
        block_height,
        pub_key: hex_upper(meta.pub_key@),
        power: meta.power as int,
        name: text_of(meta.name),
        proposer_priority: meta.proposer_priority as int,
    }
}

/// The records of `metas` in the validator set of `block_height`, one for
/// one.
pub open spec fn validator_infos_of(metas: Seq<ValidatorMeta>, block_height: int) -> Seq<
    ValidatorInfoView,
> {
    Seq::new(metas.len(), |i: int| validator_info_of(metas[i], block_height))
}

/// A voting power as the signed 64-bit column holds it: powers above
/// `i64::MAX` wrap around to negative numbers.
pub open spec fn voting_power_of(power: int) -> int {
    if power <= i64::MAX {
        power
    } else {
        power - 0x1_0000_0000_0000_0000
    }
}

/// The row that is stored for a validator record: the public key is left
/// out, a missing name is stored as the empty text.
pub open spec fn validator_row_of(info: ValidatorInfoView) -> ValidatorRowView {
    ValidatorRowView {
        block_height: info.block_height,
        address: info.address,
        name: match info.name {
            Some(name) => name,
            None => Seq::empty(),
        },
        voting_power: voting_power_of(info.power),
        proposer_priority: info.proposer_priority,
    }
}

impl ValidatorInfo {
    /// A record of the given values.
    pub fn new(
        address: String,
        block_height: i64,
        pub_key: String,
        power: u64,
        name: Option<String>,
        proposer_priority: i64,
    ) -> (res: ValidatorInfo)
        ensures
            res@ == (ValidatorInfoView {
                address: address@,
                block_height: block_height as int,
                pub_key: pub_key@,
                power: power as int,
                name: text_of(name),
                proposer_priority: proposer_priority as int,
            }),
    {
        ValidatorInfo { address, block_height, pub_key, power, name, proposer_priority }
    }

    /// The record of a validator in the set of `block_height`, `None` where
    /// the validator's data is not valid.
    pub fn from_info(validator: ValidatorMeta, block_height: i64) -> (res: Option<ValidatorInfo>)
        ensures
            res is Some <==> validator_meta_is_valid(validator),
            res matches Some(info) ==> info@ == validator_info_of(validator, block_height as int),
    {
        let address = match account_id_text(&validator.address) {
            Some(text) => text,
            None => {
                return None;
            },
        };
        let pub_key = match public_key_hex(&validator.pub_key) {
            Some(text) => text,
            None => {
                return None;
            },
        };
        Some(
            ValidatorInfo::new(
                address,
                block_height,
                pub_key,
                validator.power,
                validator.name,
                validator.proposer_priority,
            ),
        )
    }

    /// The records of a validator set, in the order of the chain's response;
    /// `None` where one of its items is not valid.
    pub fn from_infos(validators: Vec<ValidatorMeta>, block_height: i64) -> (res: Option<
        Vec<ValidatorInfo>,
    >)
        ensures
            res is Some <==> forall|i: int|
                0 <= i < validators@.len() ==> validator_meta_is_valid(validators@[i]),
            res matches Some(infos) ==> views_of(infos@) == validator_infos_of(
                validators@,
                block_height as int,
            ),
    {
        let ghost all = validators@;
        let mut infos: Vec<ValidatorInfo> = Vec::new();
        for validator in it: validators
            invariant
                it.seq() == all,
                infos@.len() == it.index(),
                forall|i: int| 0 <= i < it.index() ==> validator_meta_is_valid(all[i]),
                forall|i: int|
                    0 <= i < infos@.len() ==> (#[trigger] infos@[i])@ == validator_info_of(
                        all[i],
                        block_height as int,
                    ),
        {
            match ValidatorInfo::from_info(validator, block_height) {
                Some(info) => {
                    infos.push(info);
                },
                None => {
                    return None;
                },
            }
        }
        assert(views_of(infos@) =~= validator_infos_of(validators@, block_height as int));
        Some(infos)
    }

    /// The row that is stored for this record.
    pub fn row(&self) -> (res: ValidatorRow)
        ensures
            res@ == validator_row_of(self@),
    {
        let name = match &self.name {
            Some(name) => name.clone(),
            None => String::new(),
        };
        let voting_power: i64 = if self.power <= 0x7fff_ffff_ffff_ffff {
            self.power as i64
        } else {
            (self.power - 0x8000_0000_0000_0000) as i64 + i64::MIN
        };
        ValidatorRow {
            block_height: self.block_height,
            address: self.address.clone(),
            name,
            voting_power,
            proposer_priority: self.proposer_priority,
        }
    }
}

/// The record of `peer`, seen while `block_height` was indexed.
pub open spec fn peer_info_of(peer: PeerMeta, block_height: int) -> PeerInfoView {
    PeerInfoView {
        block_height,
        node_id: peer.node_id@,
        remote_ip: peer.remote_ip@,
        peer_score: peer.peer_score as int,
    }
}

/// The records of `peers`, seen while `block_height` was indexed, one for
/// one.
pub open spec fn peer_infos_of(peers: Seq<PeerMeta>, block_height: int) -> Seq<PeerInfoView> {
    Seq::new(peers.len(), |i: int| peer_info_of(peers[i], block_height))
}

impl PeerInfo {
    /// The record of a peer, seen while `block_height` was indexed.
    pub fn from_info(peer: PeerMeta, block_height: i64) -> (res: PeerInfo)
        ensures
            res@ == peer_info_of(peer, block_height as int),
    {
        PeerInfo {
            block_height,
            node_id: peer.node_id,
            remote_ip: peer.remote_ip,
            peer_score: peer.peer_score,
        }
    }

    /// The records of the peers in a network snapshot, in its order.
    pub fn from_infos(peers: Vec<PeerMeta>, block_height: i64) -> (res: Vec<PeerInfo>)
        ensures
            views_of(res@) == peer_infos_of(peers@, block_height as int),
    {
        let ghost all = peers@;
        let mut infos: Vec<PeerInfo> = Vec::new();
        for peer in it: peers
            invariant
                it.seq() == all,
                infos@.len() == it.index(),
                forall|i: int|
                    0 <= i < infos@.len() ==> (#[trigger] infos@[i])@ == peer_info_of(
                        all[i],
                        block_height as int,
                    ),
        {
            infos.push(PeerInfo::from_info(peer, block_height));
        }
        assert(views_of(infos@) =~= peer_infos_of(peers@, block_height as int));
        infos
    }

    /// A copy of this record.
    pub fn duplicate(&self) -> (res: PeerInfo)
        ensures
            res@ == self@,
    {
        PeerInfo {
            block_height: self.block_height,
            node_id: self.node_id.clone(),
            remote_ip: self.remote_ip.clone(),
            peer_score: self.peer_score,
        }
    }
}

} // verus!
