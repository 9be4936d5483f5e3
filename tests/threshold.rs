use zcash_coldwallet::error::WalletError;
use zcash_coldwallet::multisig::{
    assemble_signatures, combine, make_commitments, multi_sign_one, multisig_gen, place_signatures, CommitmentSet,
    KeyShare, SignerNonces, SignerShares, TxBin,
};
use zcash_coldwallet::tx::{Tx, TxIn, TxOut};

fn unsigned_tx(inputs: usize) -> Tx {
    let input = |i: usize| TxIn {
        diversifier: "00".repeat(11),
        addr: format!("z{}", i),
        amount: 1000 * (i as u64 + 1),
        z212: true,
        rseed: "11".repeat(32),
        witness: "22".to_string(),
    };
    Tx {
        height: 1_000_000,
        inputs: (0..inputs).map(input).collect(),
        output: Some(TxOut { addr: "zdest".to_string(), amount: 500, ovk: "33".repeat(32) }),
    }
}

fn round_one(tx: &Tx, signers: &[u64]) -> (Vec<SignerNonces>, CommitmentSet) {
    let mut set = CommitmentSet::new(tx.inputs.len());
    let mut all = Vec::new();
    for &s in signers {
        let (n, c) = make_commitments(s, tx);
        set.add(c).unwrap();
        all.push(n);
    }
    (all, set)
}

fn share_of(shares: &[KeyShare], index: u64) -> &KeyShare {
    shares.iter().find(|s| s.index() == index).unwrap()
}

fn sign_with(tx: &Tx, shares: &[KeyShare], signers: &[u64], sighash: &[u8]) -> (TxBin, Vec<SignerShares>) {
    let (mut nonces, set) = round_one(tx, signers);
    let n = tx.inputs.len();
    let spend_indices: Vec<usize> = (0..n).rev().collect();
    let bin = TxBin::new(tx, set, vec![0xaa, 0xbb], sighash.to_vec(), spend_indices).unwrap();
    let mut out = Vec::new();
    for (k, &s) in signers.iter().enumerate() {
        let sig = multi_sign_one(&bin, &mut nonces[k], share_of(shares, s)).unwrap();
        assert_eq!(sig.len(), n);
        assert_eq!(sig.index(), s);
        out.push(sig);
    }
    (bin, out)
}

#[test]
fn ceremony_refuses_bad_thresholds() {
    assert!(matches!(multisig_gen(3, 0), Err(WalletError::InvalidThreshold(3, 0))));
    assert!(matches!(multisig_gen(2, 3), Err(WalletError::InvalidThreshold(2, 3))));
    assert!(matches!(multisig_gen(0, 0), Err(WalletError::InvalidThreshold(0, 0))));
    assert!(matches!(multisig_gen(255, 2), Err(WalletError::InvalidThreshold(255, 2))));
}

#[test]
fn ceremony_gives_indexed_shares() {
    let (shares, group) = multisig_gen(3, 2).unwrap();
    assert_eq!(shares.len(), 3);
    assert_eq!(shares.iter().map(|s| s.index()).collect::<Vec<_>>(), vec![1, 2, 3]);
    assert_eq!(group.num_signers(), 3);
    assert_eq!(group.threshold(), 2);
}

#[test]
fn two_of_three_signs_and_aggregates() {
    let (shares, group) = multisig_gen(3, 2).unwrap();
    let tx = unsigned_tx(2);
    let (bin, sig_shares) = sign_with(&tx, &shares, &[1, 2], b"sighash-one");
    let signed = combine(&bin, &group, &sig_shares).unwrap();
    assert_eq!(signed.tx_data, vec![0xaa, 0xbb]);
    assert_eq!(signed.spend_auth_sigs.len(), 2);
    assert!(signed.spend_auth_sigs.iter().all(|s| s.len() == 64));
    assert_ne!(signed.spend_auth_sigs[0], signed.spend_auth_sigs[1]);
}

#[test]
fn every_pair_of_three_can_sign() {
    let (shares, group) = multisig_gen(3, 2).unwrap();
    let tx = unsigned_tx(1);
    for pair in [[1u64, 2], [1, 3], [2, 3]] {
        let (bin, sig_shares) = sign_with(&tx, &shares, &pair, b"same sighash");
        assert!(combine(&bin, &group, &sig_shares).is_ok());
    }
}

#[test]
fn three_of_five_can_sign() {
    let (shares, group) = multisig_gen(5, 3).unwrap();
    let tx = unsigned_tx(1);
    let (bin, sig_shares) = sign_with(&tx, &shares, &[2, 4, 5], b"msg");
    assert!(combine(&bin, &group, &sig_shares).is_ok());
}

#[test]
fn share_without_commitment_fails_aggregation() {
    let (shares, group) = multisig_gen(3, 2).unwrap();
    let tx = unsigned_tx(1);
    let (bin, _) = sign_with(&tx, &shares, &[1, 2], b"sighash");
    let mut uncommitted = make_commitments(3, &tx).0;
    assert!(matches!(multi_sign_one(&bin, &mut uncommitted, share_of(&shares, 3)), Err(WalletError::TxParse)));
    let (bin_three, three) = sign_with(&tx, &shares, &[3], b"sighash");
    assert!(combine(&bin_three, &group, &three).is_err());
    assert!(matches!(combine(&bin, &group, &three), Err(WalletError::AggregationFailed)));
}

#[test]
fn nonces_and_share_of_different_signers_refused() {
    let (shares, _group) = multisig_gen(3, 2).unwrap();
    let tx = unsigned_tx(1);
    let (mut nonces, set) = round_one(&tx, &[1, 2]);
    let bin = TxBin::new(&tx, set, vec![], b"h".to_vec(), vec![0]).unwrap();
    assert!(matches!(multi_sign_one(&bin, &mut nonces[0], share_of(&shares, 2)), Err(WalletError::TxParse)));
    assert!(matches!(multi_sign_one(&bin, &mut nonces[0], share_of(&shares, 1)), Err(WalletError::NonceReuse)));
}

#[test]
fn below_threshold_fails_aggregation() {
    let (shares, group) = multisig_gen(3, 2).unwrap();
    let tx = unsigned_tx(1);
    let (bin, sig_shares) = sign_with(&tx, &shares, &[1], b"sighash");
    assert!(matches!(combine(&bin, &group, &sig_shares), Err(WalletError::AggregationFailed)));
}

#[test]
fn missing_share_of_committed_signer_fails_aggregation() {
    let (shares, group) = multisig_gen(3, 2).unwrap();
    let tx = unsigned_tx(1);
    let (bin, mut sig_shares) = sign_with(&tx, &shares, &[1, 2, 3], b"sighash");
    sig_shares.pop();
    assert!(matches!(combine(&bin, &group, &sig_shares), Err(WalletError::AggregationFailed)));
}

#[test]
fn duplicate_signer_fails_aggregation() {
    let (shares, group) = multisig_gen(3, 2).unwrap();
    let tx = unsigned_tx(1);
    let (bin, mut sig_shares) = sign_with(&tx, &shares, &[1, 2], b"sighash");
    let mut second = make_commitments(2, &tx).0;
    let again = multi_sign_one(&bin, &mut second, share_of(&shares, 2)).unwrap();
    sig_shares.push(again);
    assert!(matches!(combine(&bin, &group, &sig_shares), Err(WalletError::AggregationFailed)));
}

#[test]
fn shares_of_a_larger_group_fail_aggregation() {
    let (shares, _) = multisig_gen(5, 2).unwrap();
    let (_, small_group) = multisig_gen(3, 2).unwrap();
    let tx = unsigned_tx(1);
    let (bin, sig_shares) = sign_with(&tx, &shares, &[4, 5], b"sighash");
    assert!(matches!(combine(&bin, &small_group, &sig_shares), Err(WalletError::AggregationFailed)));
}

#[test]
fn shares_checked_against_another_group_fail() {
    let (shares, _) = multisig_gen(3, 2).unwrap();
    let (_, other_group) = multisig_gen(3, 2).unwrap();
    let tx = unsigned_tx(1);
    let (bin, sig_shares) = sign_with(&tx, &shares, &[1, 2], b"sighash");
    assert!(matches!(combine(&bin, &other_group, &sig_shares), Err(WalletError::AggregationFailed)));
}

#[test]
fn nonces_sign_only_once() {
    let (shares, _group) = multisig_gen(3, 2).unwrap();
    let tx = unsigned_tx(1);
    let (mut nonces, set) = round_one(&tx, &[1, 2]);
    let bin_a = TxBin::new(&tx, set, vec![1], b"first sighash".to_vec(), vec![0]).unwrap();
    assert!(multi_sign_one(&bin_a, &mut nonces[0], share_of(&shares, 1)).is_ok());
    let (_, set_b) = round_one(&tx, &[1, 2]);
    let bin_b = TxBin::new(&tx, set_b, vec![1], b"second sighash".to_vec(), vec![0]).unwrap();
    assert!(matches!(
        multi_sign_one(&bin_b, &mut nonces[0], share_of(&shares, 1)),
        Err(WalletError::NonceReuse)
    ));
    assert!(matches!(
        multi_sign_one(&bin_a, &mut nonces[0], share_of(&shares, 1)),
        Err(WalletError::NonceReuse)
    ));
}

#[test]
fn commitment_set_refuses_duplicates_and_bad_counts() {
    let tx = unsigned_tx(2);
    let mut set = CommitmentSet::new(2);
    let (_, c1) = make_commitments(1, &tx);
    let (_, c1b) = make_commitments(1, &tx);
    let (_, short) = make_commitments(2, &unsigned_tx(1));
    assert_eq!(set.add(c1), Ok(()));
    assert_eq!(set.add(c1b), Err(WalletError::TxParse));
    assert_eq!(set.add(short), Err(WalletError::TxParse));
    assert!(set.has_signer(1));
    assert!(!set.has_signer(2));
}

#[test]
fn txbin_checks_spend_positions() {
    let tx = unsigned_tx(3);
    assert!(TxBin::new(&tx, CommitmentSet::new(3), vec![], vec![], vec![2, 0, 1]).is_ok());
    assert!(matches!(TxBin::new(&tx, CommitmentSet::new(3), vec![], vec![], vec![0, 0, 1]), Err(WalletError::TxParse)));
    assert!(matches!(TxBin::new(&tx, CommitmentSet::new(3), vec![], vec![], vec![0, 1, 3]), Err(WalletError::TxParse)));
    assert!(matches!(TxBin::new(&tx, CommitmentSet::new(3), vec![], vec![], vec![0, 1]), Err(WalletError::TxParse)));
    assert!(matches!(TxBin::new(&tx, CommitmentSet::new(2), vec![], vec![], vec![0, 1, 2]), Err(WalletError::TxParse)));
}

#[test]
fn signatures_go_to_spend_positions() {
    let results = vec![Some(vec![1]), Some(vec![2]), Some(vec![3])];
    assert_eq!(assemble_signatures(&vec![2, 0, 1], &results), Ok(vec![vec![2], vec![3], vec![1]]));
    let failed = vec![Some(vec![1]), None, Some(vec![3])];
    assert_eq!(assemble_signatures(&vec![2, 0, 1], &failed), Err(WalletError::AggregationFailed));
    assert_eq!(assemble_signatures(&vec![], &vec![]), Ok(vec![]));
}

#[test]
fn placed_signatures_are_checked_against_group_key() {
    let (shares, group) = multisig_gen(3, 2).unwrap();
    assert_eq!(group.key_bytes().len(), 32);
    let tx = unsigned_tx(2);
    let (bin, sig_shares) = sign_with(&tx, &shares, &[2, 3], b"sighash-two");
    let signed = combine(&bin, &group, &sig_shares).unwrap();
    let logical: Vec<Option<Vec<u8>>> =
        bin.spend_indices.iter().map(|&p| Some(signed.spend_auth_sigs[p].clone())).collect();
    let again = place_signatures(&bin, &group, &logical).unwrap();
    assert_eq!(again.spend_auth_sigs, signed.spend_auth_sigs);
    let mut forged = logical.clone();
    let mut bad = forged[0].clone().unwrap();
    bad[40] ^= 1;
    forged[0] = Some(bad);
    assert!(matches!(place_signatures(&bin, &group, &forged), Err(WalletError::AggregationFailed)));
    let missing = vec![logical[0].clone(), None];
    assert!(matches!(place_signatures(&bin, &group, &missing), Err(WalletError::AggregationFailed)));
    let short = vec![Some(vec![0u8; 63]), logical[1].clone()];
    assert!(matches!(place_signatures(&bin, &group, &short), Err(WalletError::AggregationFailed)));
    let (_, other_group) = multisig_gen(3, 2).unwrap();
    assert!(matches!(place_signatures(&bin, &other_group, &logical), Err(WalletError::AggregationFailed)));
}

#[test]
fn commitments_report_signer_and_count() {
    let tx = unsigned_tx(3);
    let (nonces, c) = make_commitments(7, &tx);
    assert_eq!(c.index(), 7);
    assert_eq!(c.len(), 3);
    assert_eq!(nonces.index(), 7);
}
