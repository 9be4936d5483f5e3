use zcash_coldwallet::checkpoint::{
    account_birth_height, day_start_timestamp, find_checkpoint, find_height, Checkpoint, HeightSearch, SearchStep,
    SAPLING_ACTIVATION_HEIGHT,
};
use zcash_coldwallet::error::WalletError;

#[test]
fn search_finds_block_at_target_time() {
    let times: Vec<u32> = (0..=200u32).map(|h| 1_600_000_000 + 75 * h).collect();
    let target = times[150];
    assert_eq!(find_height(&times, 100, 200, target), 150);
}

#[test]
fn search_finds_middle_block_on_unordered_times() {
    let mut times: Vec<u32> = (0..=200u32).map(|h| (h * 7919) % 1000).collect();
    times[150] = 123_456;
    assert_eq!(find_height(&times, 100, 200, 123_456), 150);
}

#[test]
fn search_on_unordered_times_ends_within_bounds() {
    let times: Vec<u32> = (0..=200u32).map(|h| (h * 7919) % 1000).collect();
    for target in [0u32, 1, 500, 999, 5000] {
        let r = find_height(&times, 100, 200, target);
        assert!(99 <= r && r <= 200);
    }
    assert_eq!(find_height(&times, 150, 120, 3), 120);
}

#[test]
fn search_below_every_block_ends_below_low() {
    let times: Vec<u32> = (0..=200u32).map(|h| 1000 + h).collect();
    assert_eq!(find_height(&times, 100, 200, 5), 99);
    assert_eq!(find_height(&times, 100, 200, 100_000), 200);
}

#[test]
fn search_between_blocks_lands_near() {
    let times: Vec<u32> = (0..=200u32).map(|h| 1000 * h).collect();
    let h = find_height(&times, 100, 200, 150_500);
    assert!(h == 150 || h == 151);
}

#[test]
fn search_state_machine_steps() {
    let mut s = HeightSearch::new(100, 200, 500);
    assert_eq!(s.step(), SearchStep::Probe(150));
    s.observe(150, 900);
    assert_eq!(s.high, 149);
    assert_eq!(s.step(), SearchStep::Probe(124));
    s.observe(124, 100);
    assert_eq!(s.low, 125);
    s.observe(137, 500);
    assert_eq!(s.step(), SearchStep::Done(137));
    let d = HeightSearch::new(7, 7, 1);
    assert_eq!(d.step(), SearchStep::Done(7));
}

#[test]
fn checkpoint_hash_is_reversed() {
    let c = find_checkpoint(419200, "0a0B0c", 1550000000, "tree".to_string()).unwrap();
    assert_eq!(c.hash, vec![0x0c, 0x0b, 0x0a]);
    assert_eq!(c.height, 419200);
    assert_eq!(c.time, 1550000000);
    assert_eq!(c.sapling_tree, "tree");
    assert_eq!(c.wire_hash(), "0a0b0c");
}

#[test]
fn checkpoint_bad_hash_is_decode_error() {
    assert_eq!(
        find_checkpoint(1, "0g", 0, String::new()),
        Err(WalletError::Decode("0g".to_string()))
    );
    assert_eq!(
        find_checkpoint(1, "abc", 0, String::new()),
        Err(WalletError::Decode("abc".to_string()))
    );
}

#[test]
fn checkpoint_wire_hash_round_trip() {
    let c = Checkpoint { height: 5, hash: vec![1, 2, 0xfe], time: 9, sapling_tree: "t".to_string() };
    let back = find_checkpoint(c.height, &c.wire_hash(), c.time, c.sapling_tree.clone()).unwrap();
    assert_eq!(back, c);
}

#[test]
fn day_start_timestamps() {
    assert_eq!(day_start_timestamp(1970, 1, 1), Ok(0));
    assert_eq!(day_start_timestamp(2020, 1, 1), Ok(1_577_836_800));
    assert_eq!(day_start_timestamp(2020, 2, 29), Ok(1_582_934_400));
    assert_eq!(day_start_timestamp(2021, 2, 29), Err(WalletError::InvalidDate(2021, 2, 29)));
    assert_eq!(day_start_timestamp(1969, 12, 31), Err(WalletError::InvalidDate(1969, 12, 31)));
    assert_eq!(day_start_timestamp(2020, 13, 1), Err(WalletError::InvalidDate(2020, 13, 1)));
}

#[test]
fn birth_height_not_before_activation() {
    assert_eq!(account_birth_height(0), SAPLING_ACTIVATION_HEIGHT);
    assert_eq!(account_birth_height(u64::MAX), u64::MAX);
    assert_eq!(account_birth_height(1_000_000), 1_000_000);
}
