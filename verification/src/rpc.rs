//! The block arguments of JSON-RPC calls and the rules that pick them.
use vstd::prelude::*;

verus! {

/// A block given by its number or by a tag.
#[derive(Clone, Copy, Debug, PartialEq, Eq, Structural)]
pub enum BlockNumberOrTag {
    Latest,
    Finalized,
    Safe,
    Earliest,
    Pending,
    Number(u64),
}

/// A block given by its hash or by its number or tag.
#[derive(Clone, Copy, Debug, PartialEq, Eq)]
pub enum BlockId {
    Hash { block_hash: [u8; 32], require_canonical: Option<bool> },
    Number(BlockNumberOrTag),
}

/// The block a call is made at: the one given, else the latest.
pub fn block_or_latest(block: Option<BlockId>) -> (r: BlockId)
    ensures
        r == match block {
            Some(b) => b,
            None => BlockId::Number(BlockNumberOrTag::Latest),
        },
{
    match block {
        Some(b) => b,
        None => BlockId::Number(BlockNumberOrTag::Latest),
    }
}

/// The method that fetches an uncle of the block `tag`: by block hash where
/// the block is given by its hash, else by block number.
pub fn uncle_method(tag: &BlockId) -> (r: &'static str)
    ensures
        r@ == (if tag is Hash {
            "eth_getUncleByBlockHashAndIndex"@
        } else {
            "eth_getUncleByBlockNumberAndIndex"@
        }),
{
    match tag {
        BlockId::Hash { .. } => "eth_getUncleByBlockHashAndIndex",
        BlockId::Number(_) => "eth_getUncleByBlockNumberAndIndex",
    }
}

/// The parameters of an `eth_estimateGas` call for the transaction `T`.
pub enum EstimateGasParams<T> {
    /// The transaction and the block to estimate at.
    AtBlock(T, BlockId),
    /// The transaction alone.
    TxOnly(T),
}

/// The parameters of `eth_estimateGas`: the transaction and the block where
/// a block is given, else the transaction alone.
pub fn estimate_gas_params<T>(tx: T, block: Option<BlockId>) -> (r: EstimateGasParams<T>)
    ensures
        r == match block {
            Some(b) => EstimateGasParams::AtBlock(tx, b),
            None => EstimateGasParams::TxOnly(tx),
        },
{
    match block {
        Some(b) => EstimateGasParams::AtBlock(tx, b),
        None => EstimateGasParams::TxOnly(tx),
    }
}

} // verus!
