//! The ingestion loop: where a poll cycle starts, and what it asks of the
//! chain.
//!
//! A cycle reads the checkpoint from the store, takes the later of the
//! height after it and the height the indexer was started with, and cuts
//! the heights from there to the chain's latest into chunks. Each chunk
//! gives one request for its blocks and, for each of its heights, one for
//! the validator set and one for the network's peers. The requests do not
//! depend on each other: each is fetched, shaped and stored on its own.

use crate::chunks::{
    chunks_of, heights_of, ints_of, lemma_chunks_are_contiguous, partition, ranges_of, Chunk,
    HeightRange,
};
use crate::data::BlockRowView;
use crate::tables::{has_block, is_latest_height};
use crate::encoding::{height_from_i64, is_chain_height};
use crate::error::IndexerError;
use crate::utils::IndexerConfig;
use vstd::prelude::*;

verus! {

/// The greatest number of heights in a chunk.
pub const CHUNK_SIZE: u64 = 20;

/// One call to the chain whose answer is stored as one batch.
#[derive(Debug, Clone, Copy, PartialEq, Eq, Structural)]
pub enum Request {
    /// The metadata of the blocks from `start_height` to `end_height`.
    Blocks { start_height: i64, end_height: i64 },
    /// The validator set at `height`.
    Validators { height: i64 },
    /// The peers of the node, to be recorded under `height`.
    NetworkInfo { height: i64 },
}

/// The request for the blocks of a range, where both ends are heights of
/// the chain; none where one is not.
pub open spec fn block_requests(start: int, end: int) -> Seq<Request> {
    if is_chain_height(start) && is_chain_height(end) {
        seq![Request::Blocks { start_height: start as i64, end_height: end as i64 }]
    } else {
        Seq::empty()
    }
}

/// One request for the validator set of each of `heights` that is a height
/// of the chain, in the order of `heights`.
pub open spec fn validator_requests(heights: Seq<int>) -> Seq<Request>
    decreases heights.len(),
{
    if heights.len() == 0 {
        Seq::empty()
    } else {
        let before = validator_requests(heights.drop_last());
        if is_chain_height(heights.last()) {
            before.push(Request::Validators { height: heights.last() as i64 })
        } else {
            before
        }
    }
}

/// One request for the network's peers for each of `heights`, in the order
/// of `heights`.
pub open spec fn network_requests(heights: Seq<int>) -> Seq<Request> {
    Seq::new(heights.len(), |i: int| Request::NetworkInfo { height: heights[i] as i64 })
}

/// The requests of one chunk: its blocks, then the validator sets of its
/// heights, then the peers for each of its heights.
pub open spec fn range_requests(range: HeightRange) -> Seq<Request> {
    block_requests(range.first, range.last) + validator_requests(
        heights_of(range.first, range.last),
    ) + network_requests(heights_of(range.first, range.last))
}

/// The requests of a sequence of chunks, chunk after chunk.
pub open spec fn requests_of(ranges: Seq<HeightRange>) -> Seq<Request>
    decreases ranges.len(),
{
    if ranges.len() == 0 {
        Seq::empty()
    } else {
        requests_of(ranges.drop_last()) + range_requests(ranges.last())
    }
}

/// The height a poll cycle starts from: the height after the checkpoint, or
/// the height the indexer was started with where that is later.
pub open spec fn next_height(persisted: int, start_height: int) -> int {
    if persisted + 1 >= start_height {
        persisted + 1
    } else {
        start_height
    }
}

/// A poll cycle never asks for a height that the store holds: every height
/// of every chunk lies above the checkpoint, so above every stored height.
pub proof fn lemma_cycle_skips_stored_heights(
    rows: Seq<BlockRowView>,
    persisted: int,
    start_height: int,
    latest: int,
    size: int,
    k: int,
    height: int,
)
    requires
        is_latest_height(rows, persisted),
        size >= 1,
        0 <= k < chunks_of(next_height(persisted, start_height), latest, size).len(),
        chunks_of(next_height(persisted, start_height), latest, size)[k].contains(height),
    ensures
        persisted < height,
        start_height <= height <= latest,
        !has_block(rows, height),
{
    lemma_chunks_are_contiguous(next_height(persisted, start_height), latest, size);
}

/// A request for validators or peers is none for blocks.
proof fn lemma_height_requests_are_not_for_blocks(heights: Seq<int>, i: int)
    ensures
        0 <= i < validator_requests(heights).len() ==> !(validator_requests(
            heights,
        )[i] is Blocks),
        0 <= i < network_requests(heights).len() ==> !(network_requests(heights)[i] is Blocks),
    decreases heights.len(),
{
    if heights.len() > 0 {
        lemma_height_requests_are_not_for_blocks(heights.drop_last(), i);
    }
}

/// Each request for blocks among the requests of a sequence of chunks asks
/// for one of the chunks, from its first height to its last.
pub proof fn lemma_block_requests_are_chunks(ranges: Seq<HeightRange>, i: int)
    requires
        0 <= i < requests_of(ranges).len(),
        requests_of(ranges)[i] is Blocks,
    ensures
        exists|k: int|
            0 <= k < ranges.len() && (#[trigger] ranges[k]).first == requests_of(
                ranges,
            )[i]->start_height && ranges[k].last == requests_of(ranges)[i]->end_height,
    decreases ranges.len(),
{
    let before = requests_of(ranges.drop_last());
    let last = ranges.last();
    if i < before.len() {
        lemma_block_requests_are_chunks(ranges.drop_last(), i);
        let k = choose|k: int|
            0 <= k < ranges.drop_last().len() && (#[trigger] ranges.drop_last()[k]).first
                == before[i]->start_height && ranges.drop_last()[k].last == before[i]->end_height;
        assert(ranges[k] == ranges.drop_last()[k]);
    } else {
        let blocks = block_requests(last.first, last.last);
        let validators = validator_requests(heights_of(last.first, last.last));
        let peers = network_requests(heights_of(last.first, last.last));
        let j = i - before.len();
        assert(requests_of(ranges)[i] == range_requests(last)[j]);
        if j < blocks.len() {
            assert(range_requests(last)[j] == blocks[j]);
            assert(ranges[ranges.len() - 1] == last);
        } else if j < blocks.len() + validators.len() {
            assert(range_requests(last)[j] == validators[j - blocks.len()]);
            lemma_height_requests_are_not_for_blocks(
                heights_of(last.first, last.last),
                j - blocks.len(),
            );
        } else {
            assert(range_requests(last)[j] == peers[j - blocks.len() - validators.len()]);
            lemma_height_requests_are_not_for_blocks(
                heights_of(last.first, last.last),
                j - blocks.len() - validators.len(),
            );
        }
    }
}

/// A poll cycle never asks for a block that the store holds: each request
/// for blocks that it gives covers heights above the checkpoint only, and
/// none of them is stored.
pub proof fn lemma_cycle_never_asks_for_a_stored_block(
    rows: Seq<BlockRowView>,
    persisted: int,
    start_height: int,
    latest: int,
    i: int,
    height: int,
)
    requires
        is_latest_height(rows, persisted),
        0 <= i < requests_of(
            chunks_of(next_height(persisted, start_height), latest, CHUNK_SIZE as int),
        ).len(),
        requests_of(
            chunks_of(next_height(persisted, start_height), latest, CHUNK_SIZE as int),
        )[i] matches Request::Blocks { start_height: first, end_height: last } && first <= height
            <= last,
    ensures
        persisted < height,
        !has_block(rows, height),
{
    let ranges = chunks_of(next_height(persisted, start_height), latest, CHUNK_SIZE as int);
    lemma_block_requests_are_chunks(ranges, i);
    let k = choose|k: int|
        0 <= k < ranges.len() && (#[trigger] ranges[k]).first == requests_of(
            ranges,
        )[i]->start_height && ranges[k].last == requests_of(ranges)[i]->end_height;
    lemma_cycle_skips_stored_heights(
        rows,
        persisted,
        start_height,
        latest,
        CHUNK_SIZE as int,
        k,
        height,
    );
}

/// What the indexer keeps between two calls.
pub struct IndexerView {
    pub rpc_url: Seq<char>,
    pub fetch_interval: int,
    pub current_height: int,
}

/// Indexer for a Tendermint chain
pub struct Indexer {
    rpc_url: String,
    fetch_interval: u64,
    current_height: i64,
}

impl View for Indexer {
    type V = IndexerView;

    closed spec fn view(&self) -> IndexerView {
        IndexerView {
            rpc_url: self.rpc_url@,
            fetch_interval: self.fetch_interval as int,
            current_height: self.current_height as int,
        }
    }
}

impl Indexer {
    /// Create a new Indexer instance for the node at the configured address,
    /// polling at the configured interval. Its current height is 0 until
    /// the first cycle sets it.
    pub fn new(config: IndexerConfig) -> (res: Indexer)
        ensures
            res@ == (IndexerView {
                rpc_url: config.rpc_url@,
                fetch_interval: config.fetch_interval as int,
                current_height: 0,
            }),
    {
        Indexer { rpc_url: config.rpc_url, fetch_interval: config.fetch_interval, current_height: 0 }
    }

    /// The address of the node that is polled.
    pub fn rpc_url(&self) -> (res: &String)
        ensures
            res@ == self@.rpc_url,
    {
        &self.rpc_url
    }

    /// The seconds between two polls.
    pub fn fetch_interval(&self) -> (res: u64)
        ensures
            res == self@.fetch_interval,
    {
        self.fetch_interval
    }

    /// The height that the current poll cycle starts from.
    pub fn current_height(&self) -> (res: i64)
        ensures
            res == self@.current_height,
    {
        self.current_height
    }

    /// First step of a poll cycle, starting from the given height.
    ///
    /// `persisted` is the latest height that the store reported. The
    /// current height becomes the later of the height after it and
    /// `height`; the height after it must fit the type of heights. Where
    /// the store could not be read, its error comes back and the indexer is
    /// left as it was: the loop ends there.
    pub fn run(&mut self, height: i64, persisted: Result<i64, IndexerError>) -> (res: Result<
        (),
        IndexerError,
    >)
        requires
            persisted matches Ok(latest) ==> latest < i64::MAX,
        ensures
            persisted matches Ok(latest) ==> res is Ok && final(self)@ == (IndexerView {
                current_height: next_height(latest as int, height as int),
                ..old(self)@
            }),
            persisted matches Err(error) ==> res == Err::<(), IndexerError>(error) && final(self)@
                == old(self)@,
    {
        match persisted {
            Ok(latest) => {
                let after: i64 = latest + 1;
                self.current_height = if after >= height {
                    after
                } else {
                    height
                };
                Ok(())
            },
            Err(error) => Err(error),
        }
    }

    /// Second step of a poll cycle: the requests to send, given the
    /// chain's latest height.
    ///
    /// The heights from the current height to `latest_height` are cut into
    /// chunks of `CHUNK_SIZE`, and each chunk gives its requests. There is
    /// nothing to do where the chain is not ahead, nor where its height
    /// could not be had (`None`): the next cycle asks again.
    pub fn fetch_data(&mut self, latest_height: Option<i64>) -> (res: Vec<Request>)
        ensures
            final(self)@ == old(self)@,
            res@ == match latest_height {
                Some(latest) => requests_of(
                    chunks_of(old(self)@.current_height, latest as int, CHUNK_SIZE as int),
                ),
                None => Seq::empty(),
            },
    {
        let mut requests: Vec<Request> = Vec::new();
        let latest = match latest_height {
            Some(latest) => latest,
            None => {
                return requests;
            },
        };
        let chunks = partition(self.current_height, latest, CHUNK_SIZE);
        let ghost ranges = ranges_of(chunks@);
        let mut done: usize = 0;
        assert(ranges.take(0) =~= Seq::empty());
        while done < chunks.len()
            invariant
                done <= chunks@.len(),
                ranges == ranges_of(chunks@),
                requests@ == requests_of(ranges.take(done as int)),
            decreases chunks@.len() - done,
        {
            let chunk: Chunk = chunks[done];
            let heights = chunk.heights();
            let ghost before = requests@;
            proof {
                assert(ranges.take(done + 1).drop_last() =~= ranges.take(done as int));
                assert(ranges.take(done + 1).last() == chunk@);
            }
            match self.fetch_blocks(chunk.start_height, chunk.end_height) {
                Ok(request) => {
                    requests.push(request);
                },
                Err(_) => {},
            }
            assert(requests@ =~= before + block_requests(
                chunk.start_height as int,
                chunk.end_height as int,
            ));
            let mut validators = self.fetch_validators(heights.as_slice());
            requests.append(&mut validators);
            let mut peers = self.fetch_network_info(heights.as_slice());
            requests.append(&mut peers);
            assert(requests@ =~= before + range_requests(chunk@));
            done += 1;
        }
        assert(ranges.take(done as int) =~= ranges);
        requests
    }

    /// The request for the blocks from `start_height` to `end_height`.
    ///
    /// Both must be heights of the chain: the error names the first that
    /// is not.
    pub fn fetch_blocks(&self, start_height: i64, end_height: i64) -> (res: Result<
        Request,
        IndexerError,
    >)
        ensures
            res == if !is_chain_height(start_height as int) {
                Err::<Request, IndexerError>(IndexerError::InvalidHeight(start_height))
            } else if !is_chain_height(end_height as int) {
                Err::<Request, IndexerError>(IndexerError::InvalidHeight(end_height))
            } else {
                Ok::<Request, IndexerError>(Request::Blocks { start_height, end_height })
            },
    {
        if height_from_i64(start_height).is_none() {
            return Err(IndexerError::InvalidHeight(start_height));
        }
        if height_from_i64(end_height).is_none() {
            return Err(IndexerError::InvalidHeight(end_height));
        }
        Ok(Request::Blocks { start_height, end_height })
    }

    /// The requests for the validator sets at the given heights: one for
    /// each that is a height of the chain, in the order given.
    pub fn fetch_validators(&self, heights: &[i64]) -> (res: Vec<Request>)
        ensures
            res@ == validator_requests(ints_of(heights@)),
    {
        let ghost all = ints_of(heights@);
        let mut requests: Vec<Request> = Vec::new();
        let mut k: usize = 0;
        assert(all.take(0) =~= Seq::empty());
        while k < heights.len()
            invariant
                k <= heights@.len(),
                all == ints_of(heights@),
                requests@ == validator_requests(all.take(k as int)),
            decreases heights@.len() - k,
        {
            assert(all.take(k + 1).drop_last() =~= all.take(k as int));
            assert(all.take(k + 1).last() == heights@[k as int]);
            let height: i64 = heights[k];
            if height_from_i64(height).is_some() {
                requests.push(Request::Validators { height });
            }
            k += 1;
        }
        assert(all.take(k as int) =~= all);
        requests
    }

    /// The requests for the network's peers: one for each of the given
    /// heights, in the order given.
    pub fn fetch_network_info(&self, heights: &[i64]) -> (res: Vec<Request>)
        ensures
            res@ == network_requests(ints_of(heights@)),
    {
        let mut requests: Vec<Request> = Vec::new();
        let mut k: usize = 0;
        while k < heights.len()
            invariant
                k <= heights@.len(),
                requests@.len() == k,
                forall|i: int|
                    0 <= i < k ==> requests@[i] == (Request::NetworkInfo { height: heights@[i] }),
            decreases heights@.len() - k,
        {
            requests.push(Request::NetworkInfo { height: heights[k] });
            k += 1;
        }
        assert(requests@ =~= network_requests(ints_of(heights@)));
        requests
    }
}

} // verus!
