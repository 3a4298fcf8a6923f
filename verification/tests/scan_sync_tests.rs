use chain_sync::checkpoint::CheckPoint;
use chain_sync::graph::{TxCache, TxGraphUpdate};
use chain_sync::scan::{
    find_history_entry, insert_merkle_anchor, insert_prev_txout, merkle_anchor, scan_histories,
    tx_spends, OutpointAction, OutpointScan, SpkScanner,
};
use chain_sync::tip_sync::{
    build_new_tip, chain_update, find_agreement, tip_sync_begin, window_to_blocks_map,
    AgreementStep, BlocksMap, TipSyncStart, CHAIN_SUFFIX_LENGTH,
};
use chain_sync::types::{
    BlockId, ConfirmationTimeHeightAnchor, Hash32, Header, HistoryEntry, MerkleProof, OutPoint,
    Tx, TxOut,
};
use bitcoin::hashes::sha256d;

fn h(n: u64) -> Hash32 {
    Hash32 { w0: n, w1: 0, w2: 0, w3: 0 }
}

fn h32(b: [u8; 32]) -> Hash32 {
    Hash32 {
        w0: u64::from_le_bytes(b[0..8].try_into().unwrap()),
        w1: u64::from_le_bytes(b[8..16].try_into().unwrap()),
        w2: u64::from_le_bytes(b[16..24].try_into().unwrap()),
        w3: u64::from_le_bytes(b[24..32].try_into().unwrap()),
    }
}

fn to_bytes(x: &Hash32) -> [u8; 32] {
    let mut b = [0u8; 32];
    b[0..8].copy_from_slice(&x.w0.to_le_bytes());
    b[8..16].copy_from_slice(&x.w1.to_le_bytes());
    b[16..24].copy_from_slice(&x.w2.to_le_bytes());
    b[24..32].copy_from_slice(&x.w3.to_le_bytes());
    b
}

/// Ten scripts at indices 0..9; only the listed indices have history.
fn entries(funded: &[u32]) -> Vec<(u32, bool)> {
    (0..10u32).map(|i| (i, !funded.contains(&i))).collect()
}

#[test]
fn gap_limit_cutoff() {
    // only index 3 is funded: a stop gap of 2 never reaches it
    let (active, _) = scan_histories(2, &entries(&[3]));
    assert_eq!(active, None);
    // a stop gap of 3 finds it
    let (active, _) = scan_histories(3, &entries(&[3]));
    assert_eq!(active, Some(3));
}

#[test]
fn gap_limit_extension() {
    // indices 3 and 9 funded: a stop gap of 4 still only sees index 3
    let (active, consumed) = scan_histories(4, &entries(&[3, 9]));
    assert_eq!(active, Some(3));
    assert!(consumed < 10);
    // a stop gap of 5 reaches index 9
    let (active, _) = scan_histories(5, &entries(&[3, 9]));
    assert_eq!(active, Some(9));
}

#[test]
fn gap_limit_batched_matches_whole_scan() {
    let all = entries(&[3, 9]);
    let (active, _) = scan_histories(5, &all);
    let mut scanner = SpkScanner::new(5);
    for batch in all.chunks(3) {
        if scanner.stopped {
            break;
        }
        scanner.process_batch(&batch.to_vec());
    }
    assert_eq!(scanner.last_active_index, active);
}

#[test]
fn empty_keychain_finds_no_active_index() {
    let (active, consumed) = scan_histories(10, &entries(&[]));
    assert_eq!(active, None);
    assert_eq!(consumed, 10);
}

#[test]
fn tip_sync_client_ahead() {
    let prev = CheckPoint::new(BlockId { height: 10, hash: h(1) });
    assert_eq!(tip_sync_begin(&prev, 9), TipSyncStart::ClientAhead);
    assert_eq!(
        tip_sync_begin(&prev, 101),
        TipSyncStart::FetchWindow { start_height: 101 - (CHAIN_SUFFIX_LENGTH - 1) }
    );
    assert_eq!(tip_sync_begin(&prev, 10), TipSyncStart::FetchWindow { start_height: 3 });
}

/// A reorg of depth 6 on a chain of height 101: the window disagrees above
/// height 95, the agreement point is the checkpoint at 95, and the new tip
/// keeps the old prefix while replacing everything above it.
#[test]
fn tip_sync_reorg_keeps_finalized_prefix() {
    let mut prev = CheckPoint::new(BlockId { height: 0, hash: h(5000) });
    for height in 90..=101u32 {
        prev.push(BlockId { height, hash: h(1000 + height as u64) });
    }
    // server window for heights 94..=101: agrees up to 95, differs above
    let hashes: Vec<Hash32> = (94..=101u32)
        .map(|height| if height <= 95 { h(1000 + height as u64) } else { h(2000 + height as u64) })
        .collect();
    let mut blocks = window_to_blocks_map(94, &hashes);

    let mut pos = prev.len() - 1;
    let agreement = loop {
        match find_agreement(&prev, &blocks, pos) {
            AgreementStep::Agreement { pos } => break Some(pos),
            AgreementStep::NoAgreement => break None,
            AgreementStep::NeedHeader { height, pos: at } => {
                // the fake server still has the old hashes below the window
                blocks.insert(height, h(1000 + height as u64));
                pos = at;
            }
        }
    };
    // the agreement point is the checkpoint at height 95
    let agree_pos = agreement.unwrap();
    assert_eq!(prev.block_at(agree_pos).height, 95);

    let new_tip = build_new_tip(&prev, Some(agree_pos), &blocks);
    // prefix kept: every checkpoint at height <= 95 keeps its hash
    for i in 0..=agree_pos {
        assert_eq!(new_tip.block_at(i), prev.block_at(i));
    }
    // everything above is the server's new suffix
    for height in 96..=101u32 {
        assert_eq!(new_tip.get(height), Some(BlockId { height, hash: h(2000 + height as u64) }));
    }
    assert_eq!(new_tip.height(), 101);
}

#[test]
fn tip_sync_without_agreement_uses_window_alone() {
    let prev = CheckPoint::new(BlockId { height: 4, hash: h(1) });
    let hashes: Vec<Hash32> = (3..=10u32).map(|height| h(100 + height as u64)).collect();
    let blocks = window_to_blocks_map(3, &hashes);
    assert!(matches!(find_agreement(&prev, &blocks, 0), AgreementStep::NoAgreement));
    let new_tip = build_new_tip(&prev, None, &blocks);
    assert_eq!(new_tip.len(), 8);
    assert_eq!(new_tip.block_at(0), BlockId { height: 3, hash: h(103) });
    assert_eq!(new_tip.height(), 10);
}

#[test]
fn chain_update_adds_checkpoints_for_anchors() {
    let mut tip = CheckPoint::new(BlockId { height: 0, hash: h(1) });
    tip.push(BlockId { height: 8, hash: h(2) });
    let mut window = BlocksMap::new();
    window.insert(3, h(33));
    let anchor_at = |height: u32, hash: Hash32| ConfirmationTimeHeightAnchor {
        confirmation_height: height,
        confirmation_time: 7,
        anchor_block: BlockId { height, hash },
    };
    let anchors = vec![
        (anchor_at(3, h(999)), h(41)),  // window hash wins over the anchor's
        (anchor_at(5, h(55)), h(42)),   // not in the window: anchor hash used
        (anchor_at(8, h(2)), h(43)),    // checkpoint already there
        (anchor_at(9, h(66)), h(44)),   // above the tip: ignored
    ];
    let updated = chain_update(tip, &window, &anchors);
    assert_eq!(updated.get(3), Some(BlockId { height: 3, hash: h(33) }));
    assert_eq!(updated.get(5), Some(BlockId { height: 5, hash: h(55) }));
    assert_eq!(updated.get(8), Some(BlockId { height: 8, hash: h(2) }));
    assert_eq!(updated.get(9), None);
    assert_eq!(updated.height(), 8);
}

#[test]
fn graph_update_insertions_are_idempotent() {
    let mut graph = TxGraphUpdate::new();
    let tx = Tx { txid: h(1), inputs: vec![], outputs: vec![] };
    assert!(graph.insert_tx(tx.clone()));
    assert!(!graph.insert_tx(tx));
    assert_eq!(graph.txs.len(), 1);

    let anchor = ConfirmationTimeHeightAnchor {
        confirmation_height: 3,
        confirmation_time: 9,
        anchor_block: BlockId { height: 3, hash: h(5) },
    };
    assert!(graph.insert_anchor(anchor, h(1)));
    assert!(!graph.insert_anchor(anchor, h(1)));
    assert!(graph.insert_anchor(anchor, h(2)));
    assert_eq!(graph.anchors.len(), 2);

    let op = OutPoint { txid: h(7), vout: 1 };
    let txout = TxOut { value: 10_000, script_pubkey: vec![0x51] };
    assert!(graph.insert_txout(op, txout.clone()));
    assert!(!graph.insert_txout(op, txout));
    assert_eq!(graph.txouts.len(), 1);
}

#[test]
fn tx_cache_returns_first_inserted() {
    let mut cache = TxCache::new();
    assert!(cache.get(&h(1)).is_none());
    cache.insert(h(1), Tx { txid: h(1), inputs: vec![], outputs: vec![TxOut { value: 5, script_pubkey: vec![] }] });
    cache.insert(h(1), Tx { txid: h(1), inputs: vec![], outputs: vec![] });
    let got = cache.get(&h(1)).unwrap();
    assert_eq!(got.outputs.len(), 1);
}

#[test]
fn prev_txout_hydration() {
    let mut graph = TxGraphUpdate::new();
    let spender = Tx {
        txid: h(2),
        inputs: vec![OutPoint { txid: h(1), vout: 1 }],
        outputs: vec![],
    };
    graph.insert_tx(spender);
    let wanted = graph.all_input_outpoints();
    assert_eq!(wanted, vec![OutPoint { txid: h(1), vout: 1 }]);

    let prev_tx = Tx {
        txid: h(1),
        inputs: vec![],
        outputs: vec![
            TxOut { value: 1, script_pubkey: vec![0x00] },
            TxOut { value: 25_000, script_pubkey: vec![0x51, 0x52] },
        ],
    };
    insert_prev_txout(&mut graph, wanted[0], &prev_tx);
    assert_eq!(graph.txouts.len(), 1);
    assert_eq!(graph.txouts[0].0, wanted[0]);
    assert_eq!(graph.txouts[0].1.value, 25_000);
    assert_eq!(graph.txouts[0].1.script_pubkey, vec![0x51, 0x52]);
}

#[test]
fn outpoint_scan_classification() {
    let op_txid = h(10);
    let outpoint = OutPoint { txid: op_txid, vout: 0 };
    let mut walk = OutpointScan::new();
    let residing = HistoryEntry { tx_hash: op_txid, height: 5 };
    let other = HistoryEntry { tx_hash: h(11), height: 6 };

    assert_eq!(walk.classify(&residing, &op_txid), OutpointAction::TakeResiding);
    walk.mark_residing();
    assert_eq!(walk.classify(&residing, &op_txid), OutpointAction::Skip);
    assert_eq!(walk.classify(&other, &op_txid), OutpointAction::CheckSpending);

    let non_spender = Tx { txid: h(11), inputs: vec![OutPoint { txid: h(9), vout: 0 }], outputs: vec![] };
    assert!(!walk.check_spending(&non_spender, &outpoint));
    let spender = Tx { txid: h(12), inputs: vec![outpoint], outputs: vec![] };
    assert!(walk.check_spending(&spender, &outpoint));
    assert_eq!(walk.classify(&other, &op_txid), OutpointAction::Stop);
}

#[test]
fn history_lookup_and_spend_check() {
    let history = vec![
        HistoryEntry { tx_hash: h(1), height: 3 },
        HistoryEntry { tx_hash: h(2), height: 4 },
        HistoryEntry { tx_hash: h(2), height: 5 },
    ];
    assert_eq!(find_history_entry(&h(2), &history), Some(HistoryEntry { tx_hash: h(2), height: 4 }));
    assert_eq!(find_history_entry(&h(3), &history), None);

    let tx = Tx {
        txid: h(5),
        inputs: vec![OutPoint { txid: h(1), vout: 0 }, OutPoint { txid: h(2), vout: 3 }],
        outputs: vec![],
    };
    assert!(tx_spends(&tx, &OutPoint { txid: h(2), vout: 3 }));
    assert!(!tx_spends(&tx, &OutPoint { txid: h(2), vout: 2 }));
}

/// A single-transaction block: the Merkle root is the txid itself and the
/// proof has an empty path.
#[test]
fn merkle_anchor_single_tx_block() {
    let txid = h32([7u8; 32]);
    let header = Header {
        version: 4,
        prev_blockhash: h(1),
        merkle_root: txid,
        time: 12345,
        bits: 0x207fffff,
        nonce: 42,
    };
    let proof = MerkleProof { block_height: 17, pos: 0, merkle: vec![] };
    let anchor = merkle_anchor(&txid, &header, &proof).expect("proof must verify");
    assert_eq!(anchor.confirmation_height, 17);
    assert_eq!(anchor.confirmation_time, 12345);
    assert_eq!(anchor.anchor_block.height, 17);

    // the anchor's block hash is the real hash of that header
    let real = bitcoin::block::Header {
        version: bitcoin::block::Version::from_consensus(4),
        prev_blockhash: <bitcoin::BlockHash as bitcoin::hashes::Hash>::from_byte_array(
            to_bytes(&h(1)),
        ),
        merkle_root: <bitcoin::TxMerkleNode as bitcoin::hashes::Hash>::from_byte_array(
            to_bytes(&txid),
        ),
        time: 12345,
        bits: bitcoin::CompactTarget::from_consensus(0x207fffff),
        nonce: 42,
    };
    let real_hash = <bitcoin::BlockHash as bitcoin::hashes::Hash>::to_byte_array(
        real.block_hash(),
    );
    assert_eq!(anchor.anchor_block.hash, h32(real_hash));

    // a mismatching root yields no anchor
    let wrong = Header { merkle_root: h(99), ..header };
    assert!(merkle_anchor(&txid, &wrong, &proof).is_none());
}

/// A two-transaction block: the root really is the double-SHA256 of the two
/// txids, and the proof carries the sibling hash (byte-reversed, as the
/// index protocol serves it).
#[test]
fn merkle_anchor_two_leaf_proof() {
    let txid = h32([1u8; 32]);
    let sibling = h32([2u8; 32]);
    let mut data = Vec::new();
    data.extend_from_slice(&to_bytes(&txid));
    data.extend_from_slice(&to_bytes(&sibling));
    let digest = <sha256d::Hash as bitcoin::hashes::Hash>::hash(&data);
    let root = h32(<sha256d::Hash as bitcoin::hashes::Hash>::to_byte_array(digest));

    let mut reversed = to_bytes(&sibling);
    reversed.reverse();
    let proof = MerkleProof { block_height: 3, pos: 0, merkle: vec![h32(reversed)] };
    let header = Header {
        version: 2,
        prev_blockhash: h(8),
        merkle_root: root,
        time: 99,
        bits: 0,
        nonce: 0,
    };
    assert!(merkle_anchor(&txid, &header, &proof).is_some());
    // the proof names the other leaf's position: it no longer verifies
    let wrong_pos = MerkleProof { block_height: 3, pos: 1, merkle: proof.merkle.clone() };
    assert!(merkle_anchor(&txid, &header, &wrong_pos).is_none());
}

#[test]
fn merkle_anchor_recorded_in_graph() {
    let txid = h32([9u8; 32]);
    let header = Header {
        version: 1,
        prev_blockhash: h(0),
        merkle_root: txid,
        time: 777,
        bits: 0,
        nonce: 0,
    };
    let good = MerkleProof { block_height: 21, pos: 0, merkle: vec![] };
    let mut graph = TxGraphUpdate::new();
    assert!(insert_merkle_anchor(&mut graph, &txid, &header, &good));
    assert_eq!(graph.anchors.len(), 1);
    assert_eq!(graph.anchors[0].1, txid);
    assert_eq!(graph.anchors[0].0.confirmation_height, 21);

    let bad_header = Header { merkle_root: h(123), ..header };
    assert!(!insert_merkle_anchor(&mut graph, &txid, &bad_header, &good));
    assert_eq!(graph.anchors.len(), 1);
}

/// Re-running a scan against unchanged server data yields the same last
/// active index, and re-inserting the same anchors leaves the graph update
/// unchanged.
#[test]
fn rescan_at_same_server_state_is_stable() {
    let all = entries(&[3, 9]);
    let first = scan_histories(5, &all);
    let second = scan_histories(5, &all);
    assert_eq!(first, second);

    let txid = h32([9u8; 32]);
    let header = Header {
        version: 1,
        prev_blockhash: h(0),
        merkle_root: txid,
        time: 777,
        bits: 0,
        nonce: 0,
    };
    let good = MerkleProof { block_height: 21, pos: 0, merkle: vec![] };
    let mut graph = TxGraphUpdate::new();
    graph.insert_tx(Tx { txid, inputs: vec![], outputs: vec![] });
    insert_merkle_anchor(&mut graph, &txid, &header, &good);
    let anchors_after_first = graph.anchors.clone();
    // the re-scan sees the same history and the same proof
    graph.insert_tx(Tx { txid, inputs: vec![], outputs: vec![] });
    insert_merkle_anchor(&mut graph, &txid, &header, &good);
    assert_eq!(graph.anchors, anchors_after_first);
    assert_eq!(graph.txs.len(), 1);
}
