use eip1193_browser::rpc::{
    block_or_latest, estimate_gas_params, uncle_method, BlockId, BlockNumberOrTag, EstimateGasParams,
};

#[test]
fn block_defaults_to_latest() {
    assert_eq!(block_or_latest(None), BlockId::Number(BlockNumberOrTag::Latest));
    let b = BlockId::Number(BlockNumberOrTag::Number(17));
    assert_eq!(block_or_latest(Some(b)), b);
    let h = BlockId::Hash { block_hash: [7u8; 32], require_canonical: Some(true) };
    assert_eq!(block_or_latest(Some(h)), h);
}

#[test]
fn uncle_method_follows_the_tag() {
    let h = BlockId::Hash { block_hash: [0u8; 32], require_canonical: None };
    assert_eq!(uncle_method(&h), "eth_getUncleByBlockHashAndIndex");
    assert_eq!(
        uncle_method(&BlockId::Number(BlockNumberOrTag::Pending)),
        "eth_getUncleByBlockNumberAndIndex"
    );
}

#[test]
fn estimate_gas_params_follow_the_block() {
    let b = BlockId::Number(BlockNumberOrTag::Number(3));
    match estimate_gas_params("tx", Some(b)) {
        EstimateGasParams::AtBlock(tx, blk) => {
            assert_eq!(tx, "tx");
            assert_eq!(blk, b);
        }
        EstimateGasParams::TxOnly(_) => panic!("block dropped"),
    }
    match estimate_gas_params("tx", None) {
        EstimateGasParams::TxOnly(tx) => assert_eq!(tx, "tx"),
        EstimateGasParams::AtBlock(..) => panic!("block invented"),
    }
}
