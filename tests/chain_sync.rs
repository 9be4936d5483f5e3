use zcash_coldwallet::chain::{sync_start_height, BlockCache, NoteIndex, ScannedBlock, SyncPlan};
use zcash_coldwallet::error::WalletError;
use zcash_coldwallet::tx::ReceivedNote;

fn note(id: u64, value: u64) -> ReceivedNote {
    ReceivedNote {
        id,
        diversifier: vec![1; 11],
        addr: "a".to_string(),
        value,
        z212: true,
        rseed: vec![2; 32],
        witness: vec![3],
        spent: false,
    }
}

#[test]
fn sync_starts_after_cached_blocks() {
    assert_eq!(sync_start_height(Some(999), Some(999)), Ok(1000));
}

#[test]
fn sync_starts_at_index_height_with_empty_cache() {
    assert_eq!(sync_start_height(None, Some(500)), Ok(500));
}

#[test]
fn sync_starts_after_cache_without_index_height() {
    assert_eq!(sync_start_height(Some(5), None), Ok(6));
}

#[test]
fn sync_needs_initialized_account() {
    assert_eq!(sync_start_height(None, None), Err(WalletError::AccountNotInitialized));
}

#[test]
fn sync_plan_bounds() {
    let p = SyncPlan::new(1000, 2000, 10, 100).unwrap();
    assert_eq!(p, SyncPlan { start: 1000, end: 1100 });
    assert_eq!(p.blocks_synced(), 100);
    let q = SyncPlan::new(1000, 1050, 10, 100).unwrap();
    assert_eq!(q.end, 1040);
    assert_eq!(q.blocks_synced(), 40);
    let r = SyncPlan::new(1000, 1005, 10, u32::MAX).unwrap();
    assert_eq!(r.end, 995);
    assert_eq!(r.blocks_synced(), 0);
    let s = SyncPlan::new(u64::MAX - 1, u64::MAX, 1, u32::MAX).unwrap();
    assert_eq!(s.end, u64::MAX - 1);
}

#[test]
fn sync_plan_refuses_zero_margin() {
    assert_eq!(SyncPlan::new(1, 100, 0, 10), Err(WalletError::ZeroReorgMargin));
}

#[test]
fn block_cache_appends_and_upserts() {
    let mut c = BlockCache::new();
    assert_eq!(c.max_height(), None);
    assert_eq!(c.insert(100, vec![1]), Ok(()));
    assert_eq!(c.insert(101, vec![2]), Ok(()));
    assert_eq!(c.max_height(), Some(101));
    assert_eq!(c.insert(100, vec![9]), Ok(()));
    assert_eq!(c.blocks, vec![vec![9], vec![2]]);
    assert_eq!(c.insert(103, vec![4]), Err(WalletError::TxParse));
    assert_eq!(c.insert(99, vec![4]), Err(WalletError::TxParse));
    assert_eq!(c.max_height(), Some(101));
    assert_eq!(c.blocks.len(), 2);
}

fn blocks() -> Vec<ScannedBlock> {
    vec![
        ScannedBlock { height: 11, received: vec![note(1, 100)], spent: vec![] },
        ScannedBlock { height: 12, received: vec![note(2, 250)], spent: vec![1] },
    ]
}

#[test]
fn scan_applies_blocks_in_order() {
    let mut idx = NoteIndex { height: 10, notes: vec![] };
    assert_eq!(idx.scan(&blocks()), Ok(()));
    assert_eq!(idx.height, 12);
    assert_eq!(idx.notes.len(), 2);
    assert!(idx.notes[0].spent);
    assert!(!idx.notes[1].spent);
    assert_eq!(idx.get_balance(), 250);
    let spendable = idx.spendable_notes();
    assert_eq!(spendable.len(), 1);
    assert_eq!(spendable[0].id, 2);
}

#[test]
fn scan_twice_changes_nothing() {
    let mut idx = NoteIndex { height: 10, notes: vec![] };
    idx.scan(&blocks()).unwrap();
    let once = idx.clone();
    assert_eq!(idx.scan(&blocks()), Ok(()));
    assert_eq!(idx, once);
}

#[test]
fn scan_refuses_gap() {
    let mut idx = NoteIndex { height: 9, notes: vec![note(7, 5)] };
    let before = idx.clone();
    assert_eq!(idx.scan(&blocks()), Err(WalletError::TxParse));
    assert_eq!(idx, before);
}
