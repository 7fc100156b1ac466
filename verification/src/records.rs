//! Plain records of the chain: announcements to assert, and what a node
//! keeps of a block.

use vstd::prelude::*;
use crate::bytes::{Bytes32, UnsizedBytes};
use crate::coin::Coin;

verus! {

/// An announcement by a coin that a spend asserts.
#[derive(Debug, Clone, PartialEq, Eq)]
pub struct AssertCoinAnnouncement {
    pub message: UnsizedBytes,
    pub morph_bytes: Option<UnsizedBytes>,
    pub coin_id: Bytes32,
}

fn wrap_optional(bytes: Option<Vec<u8>>) -> (r: Option<UnsizedBytes>)
    ensures
        bytes is Some == r is Some,
        bytes is Some ==> r.unwrap()@ == bytes.unwrap()@,
{
    match bytes {
        Some(m) => Some(UnsizedBytes::new(&m)),
        None => None,
    }
}

impl AssertCoinAnnouncement {
    /// The announcement of `message` by the coin `coin_id`.
    pub fn new(coin_id: Bytes32, message: Vec<u8>, morph_bytes: Option<Vec<u8>>) -> (r: Self)
        ensures
            r.coin_id == coin_id,
            r.message@ == message@,
            r.morph_bytes is Some == morph_bytes is Some,
            morph_bytes is Some ==> r.morph_bytes.unwrap()@ == morph_bytes.unwrap()@,
    {
        AssertCoinAnnouncement {
            message: UnsizedBytes::new(&message),
            morph_bytes: wrap_optional(morph_bytes),
            coin_id,
        }
    }
}

/// An announcement by a puzzle that a spend asserts.
#[derive(Debug, Clone, PartialEq, Eq)]
pub struct AssertPuzzleAnnouncement {
    pub message: UnsizedBytes,
    pub morph_bytes: Option<UnsizedBytes>,
    pub puzzle_hash: Bytes32,
}

impl AssertPuzzleAnnouncement {
    /// The announcement of `message` by the puzzle `puzzle_hash`.
    pub fn new(puzzle_hash: Bytes32, message: Vec<u8>, morph_bytes: Option<Vec<u8>>) -> (r: Self)
        ensures
            r.puzzle_hash == puzzle_hash,
            r.message@ == message@,
            r.morph_bytes is Some == morph_bytes is Some,
            morph_bytes is Some ==> r.morph_bytes.unwrap()@ == morph_bytes.unwrap()@,
    {
        AssertPuzzleAnnouncement {
            message: UnsizedBytes::new(&message),
            morph_bytes: wrap_optional(morph_bytes),
            puzzle_hash,
        }
    }
}

/// The output of a verifiable delay function.
#[derive(Debug, Clone, PartialEq, Eq)]
pub struct VdfOutput {
    pub data: UnsizedBytes,
}

impl Default for VdfOutput {
    fn default() -> (r: Self)
        ensures
            r.data@ == Seq::<u8>::empty(),
    {
        VdfOutput { data: UnsizedBytes::empty() }
    }
}

/// The summary that closes a sub-epoch.
#[derive(Debug, Clone, PartialEq, Eq)]
pub struct SubEpochSummary {
    pub prev_subepoch_summary_hash: Bytes32,
    pub reward_chain_hash: Bytes32,
    pub num_blocks_overflow: u8,
    pub new_difficulty: Option<u64>,
    pub new_sub_slot_iters: Option<u64>,
}

/// What a node keeps of a block.
#[derive(Debug, Clone, PartialEq, Eq)]
pub struct BlockRecord {
    pub header_hash: Bytes32,
    pub prev_hash: Bytes32,
    pub height: u32,
    pub weight: u128,
    pub total_iters: u128,
    pub signage_point_index: u8,
    pub challenge_vdf_output: VdfOutput,
    pub infused_challenge_vdf_output: Option<VdfOutput>,
    pub reward_infusion_new_challenge: Bytes32,
    pub challenge_block_info_hash: Bytes32,
    pub sub_slot_iters: u64,
    pub pool_puzzle_hash: Bytes32,
    pub farmer_puzzle_hash: Bytes32,
    pub required_iters: u64,
    pub deficit: u8,
    pub overflow: bool,
    pub prev_transaction_block_height: u32,
    pub timestamp: Option<u64>,
    pub prev_transaction_block_hash: Option<Bytes32>,
    pub fees: Option<u64>,
    pub reward_claims_incorporated: Option<Vec<Coin>>,
    pub finished_challenge_slot_hashes: Option<Vec<Bytes32>>,
    pub finished_infused_challenge_slot_hashes: Option<Vec<Bytes32>>,
    pub finished_reward_slot_hashes: Option<Vec<Bytes32>>,
    pub sub_epoch_summary_included: Option<SubEpochSummary>,
}

impl BlockRecord {
    /// Whether every number of the record is zero, every flag unset, every
    /// optional part absent, every hash made of 32 zero bytes and the delay
    /// function's output empty.
    pub open spec fn is_blank(&self) -> bool {
        &&& self.header_hash@ == zero_hash()
        &&& self.prev_hash@ == zero_hash()
        &&& self.height == 0
        &&& self.weight == 0
        &&& self.total_iters == 0
        &&& self.signage_point_index == 0
        &&& self.challenge_vdf_output.data@ == Seq::<u8>::empty()
        &&& self.infused_challenge_vdf_output is None
        &&& self.reward_infusion_new_challenge@ == zero_hash()
        &&& self.challenge_block_info_hash@ == zero_hash()
        &&& self.sub_slot_iters == 0
        &&& self.pool_puzzle_hash@ == zero_hash()
        &&& self.farmer_puzzle_hash@ == zero_hash()
        &&& self.required_iters == 0
        &&& self.deficit == 0
        &&& !self.overflow
        &&& self.prev_transaction_block_height == 0
        &&& self.timestamp is None
        &&& self.prev_transaction_block_hash is None
        &&& self.fees is None
        &&& self.reward_claims_incorporated is None
        &&& self.finished_challenge_slot_hashes is None
        &&& self.finished_infused_challenge_slot_hashes is None
        &&& self.finished_reward_slot_hashes is None
        &&& self.sub_epoch_summary_included is None
    }

    /// Whether the block holds transactions: only such a block has a
    /// timestamp.
    pub fn is_transaction_block(&self) -> (r: bool)
        ensures
            r == (self.timestamp is Some),
    {
        self.timestamp.is_some()
    }
}

/// The hash of 32 zero bytes.
pub open spec fn zero_hash() -> Seq<u8> {
    Seq::new(32, |i: int| 0u8)
}

fn blank_hash() -> (r: Bytes32)
    ensures
        r@ == zero_hash(),
{
    let h = Bytes32::zero();
    assert(h@ =~= zero_hash());
    h
}

impl Default for BlockRecord {
    fn default() -> (r: Self)
        ensures
            r.is_blank(),
    {
        BlockRecord {
            header_hash: blank_hash(),
            prev_hash: blank_hash(),
            height: 0,
            weight: 0,
            total_iters: 0,
            signage_point_index: 0,
            challenge_vdf_output: VdfOutput { data: UnsizedBytes::empty() },
            infused_challenge_vdf_output: None,
            reward_infusion_new_challenge: blank_hash(),
            challenge_block_info_hash: blank_hash(),
            sub_slot_iters: 0,
            pool_puzzle_hash: blank_hash(),
            farmer_puzzle_hash: blank_hash(),
            required_iters: 0,
            deficit: 0,
            overflow: false,
            prev_transaction_block_height: 0,
            timestamp: None,
            prev_transaction_block_hash: None,
            fees: None,
            reward_claims_incorporated: None,
            finished_challenge_slot_hashes: None,
            finished_infused_challenge_slot_hashes: None,
            finished_reward_slot_hashes: None,
            sub_epoch_summary_included: None,
        }
    }
}

} // verus!
