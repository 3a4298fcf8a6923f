use chain_sync::checkpoint::CheckPoint;
use chain_sync::emitter::{Emitter, EmitterAction};
use chain_sync::types::{BlockId, BlockInfo, Hash32, MempoolEntry};
use chain_sync::{BitcoindRpcErrorExt, RpcError};

fn h(n: u64) -> Hash32 {
    Hash32 { w0: n, w1: 0, w2: 0, w3: 0 }
}

/// A fake node: the best chain as a list of hashes, index = height.
fn info_at(chain: &[Hash32], height: usize) -> BlockInfo {
    BlockInfo {
        hash: chain[height],
        height: height as u32,
        confirmations: (chain.len() - height) as i64,
        previous_block_hash: if height > 0 { Some(chain[height - 1]) } else { None },
        next_block_hash: chain.get(height + 1).copied(),
    }
}

fn info_for_hash(chain: &[Hash32], hash: Hash32) -> BlockInfo {
    match chain.iter().position(|x| *x == hash) {
        Some(height) => info_at(chain, height),
        None => BlockInfo {
            hash,
            height: 0,
            confirmations: -1,
            previous_block_hash: None,
            next_block_hash: None,
        },
    }
}

/// Drive one `next_block`-style poll round against the fake node.
fn next_block(em: &mut Emitter, chain: &[Hash32]) -> Option<u32> {
    let mut action = em.begin_poll();
    loop {
        match action {
            EmitterAction::FetchBlockHash { height } => {
                action = em.on_block_hash(chain[height as usize]);
            }
            EmitterAction::FetchBlockInfo { hash } => {
                action = em.on_block_info(info_for_hash(chain, hash));
            }
            EmitterAction::FetchItem { .. } => {
                return Some(em.on_item_fetched());
            }
            EmitterAction::Finished => return None,
        }
    }
}

fn drain(em: &mut Emitter, chain: &[Hash32]) -> Vec<u32> {
    let mut out = Vec::new();
    while let Some(height) = next_block(em, chain) {
        out.push(height);
    }
    out
}

fn mempool(em: &mut Emitter, entries: &Vec<MempoolEntry>) -> Vec<MempoolEntry> {
    let (to_emit, latest) = em.mempool_to_emit(entries);
    em.mempool_commit(latest);
    to_emit
}

#[test]
fn emits_whole_chain_from_height_zero() {
    let chain: Vec<Hash32> = (0..5).map(|i| h(100 + i)).collect();
    let mut em = Emitter::from_height(0);
    assert_eq!(drain(&mut em, &chain), vec![0, 1, 2, 3, 4]);
    // caught up: a second pass at the same node state emits nothing
    assert_eq!(next_block(&mut em, &chain), None);
    assert_eq!(next_block(&mut em, &chain), None);
}

#[test]
fn emits_from_start_height() {
    let chain: Vec<Hash32> = (0..6).map(|i| h(200 + i)).collect();
    let mut em = Emitter::from_height(3);
    assert_eq!(drain(&mut em, &chain), vec![3, 4, 5]);
}

#[test]
fn resumes_above_checkpoint() {
    let chain: Vec<Hash32> = (0..6).map(|i| h(300 + i)).collect();
    let mut cp = CheckPoint::new(BlockId { height: 0, hash: chain[0] });
    cp.push(BlockId { height: 2, hash: chain[2] });
    let mut em = Emitter::from_checkpoint(cp);
    assert_eq!(drain(&mut em, &chain), vec![3, 4, 5]);
}

#[test]
fn reorg_reemits_from_fork_point() {
    // a chain of height 101, then a reorg of depth 6
    let chain: Vec<Hash32> = (0..102).map(|i| h(1000 + i)).collect();
    let mut em = Emitter::from_height(0);
    let first: Vec<u32> = drain(&mut em, &chain);
    assert_eq!(first.len(), 102);

    let mut forked = chain.clone();
    for i in 96..102 {
        forked[i] = h(2000 + i as u64);
    }
    // only the reorged suffix is re-emitted: the finalized prefix 0..=95
    // keeps its blocks
    let second = drain(&mut em, &forked);
    assert_eq!(second, vec![96, 97, 98, 99, 100, 101]);
}

#[test]
fn deep_reorg_with_no_agreement_restarts() {
    let chain: Vec<Hash32> = (0..3).map(|i| h(50 + i)).collect();
    let mut em = Emitter::from_height(1);
    assert_eq!(drain(&mut em, &chain), vec![1, 2]);
    // every block the emitter knows is replaced
    let forked: Vec<Hash32> = (0..4).map(|i| h(70 + i)).collect();
    // the emitter restarts at its old tip height and emits from there
    assert_eq!(drain(&mut em, &forked), vec![2, 3]);
}

#[test]
fn mempool_emits_once_and_reemits_after_reorg() {
    let chain: Vec<Hash32> = (0..3).map(|i| h(400 + i)).collect();
    let mut em = Emitter::from_height(0);
    drain(&mut em, &chain);

    let tx_a = MempoolEntry { txid: h(9001), time: 100, height: 1 };
    // first pass emits the transaction
    let emitted = mempool(&mut em, &vec![tx_a]);
    assert_eq!(emitted.len(), 1);
    assert_eq!(emitted[0].txid, h(9001));
    // an unchanged mempool emits nothing the second time
    assert_eq!(mempool(&mut em, &vec![tx_a]).len(), 0);

    // a reorg below the entry's seen-height brings it back
    let mut forked = chain.clone();
    forked[1] = h(500);
    forked[2] = h(501);
    drain(&mut em, &forked);
    // the previous mempool pass ended at tip 2; the agreement at height 0
    // lowered it, so the entry counts as unseen again
    let re = mempool(&mut em, &vec![tx_a]);
    assert_eq!(re.len(), 1);

    // and afterwards it is deduplicated again
    assert_eq!(mempool(&mut em, &vec![tx_a]).len(), 0);
}

#[test]
fn mempool_new_arrival_is_emitted() {
    let chain: Vec<Hash32> = (0..3).map(|i| h(600 + i)).collect();
    let mut em = Emitter::from_height(0);
    drain(&mut em, &chain);
    let tx_a = MempoolEntry { txid: h(1), time: 100, height: 1 };
    assert_eq!(mempool(&mut em, &vec![tx_a]).len(), 1);
    // a transaction first seen later than every previous pass is emitted
    // even though its height is covered
    let tx_b = MempoolEntry { txid: h(2), time: 150, height: 1 };
    let emitted = mempool(&mut em, &vec![tx_a, tx_b]);
    assert_eq!(emitted.len(), 1);
    assert_eq!(emitted[0].txid, h(2));
}

#[test]
fn not_found_error_classification() {
    let not_found = RpcError::JsonRpc { code: -5 };
    let other_rpc = RpcError::JsonRpc { code: -1 };
    let transport = RpcError::Transport;
    assert!(not_found.is_not_found_error());
    assert!(!other_rpc.is_not_found_error());
    assert!(!transport.is_not_found_error());
}

#[test]
fn checkpoint_get_push_insert() {
    let mut cp = CheckPoint::new(BlockId { height: 0, hash: h(1) });
    cp.push(BlockId { height: 5, hash: h(2) });
    cp.push(BlockId { height: 9, hash: h(3) });
    assert_eq!(cp.height(), 9);
    assert_eq!(cp.get(5), Some(BlockId { height: 5, hash: h(2) }));
    assert_eq!(cp.get(4), None);
    cp.insert(BlockId { height: 4, hash: h(4) });
    assert_eq!(cp.get(4), Some(BlockId { height: 4, hash: h(4) }));
    assert_eq!(cp.height(), 9);
    assert_eq!(cp.len(), 4);
    assert_eq!(cp.block_at(1), BlockId { height: 4, hash: h(4) });
}
