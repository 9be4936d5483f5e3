//! Threshold (t-of-n) signing: the dealer's key ceremony and the rounds that
//! turn per-signer commitments and signature shares into one spend
//! authorization per input.
use vstd::prelude::*;
use redjubjub::frost::{PublicKeyPackage, SharePackage, SignatureShare, SigningCommitments, SigningNonces};
use crate::error::WalletError;
use crate::tx::Tx;

verus! {

#[verifier::external_type_specification]
#[verifier::external_body]
pub struct ExSharePackage(redjubjub::frost::SharePackage);

#[verifier::external_type_specification]
#[verifier::external_body]
pub struct ExPublicKeyPackage(redjubjub::frost::PublicKeyPackage);

#[verifier::external_type_specification]
#[verifier::external_body]
pub struct ExSigningNonces(redjubjub::frost::SigningNonces);

#[verifier::external_type_specification]
#[verifier::external_body]
pub struct ExSigningCommitments(redjubjub::frost::SigningCommitments);

#[verifier::external_type_specification]
#[verifier::external_body]
pub struct ExSignatureShare(redjubjub::frost::SignatureShare);

/// Relies on redjubjub's frost::keygen_with_dealer: it fails exactly when the
/// threshold is zero, the signer count is zero or the threshold exceeds it,
/// and otherwise gives one share per signer, signer `i + 1` at place `i`,
/// with the public keys of signers `1..=n` in the key package, whose group
/// key is also returned as its 32 bytes. (At 255 signers its loop bound
/// overflows, so that count is left out.)
#[verifier::external_body]
fn dealer_keygen(n: u8, t: u8) -> (r: Option<(Vec<u64>, Vec<SharePackage>, PublicKeyPackage, Vec<u8>)>)
    requires
        n < 255,
    ensures
        r is Some <==> 1 <= t <= n,
        r matches Some(k) ==> k.0@.len() == n && k.1@.len() == n && k.3@.len() == 32 && forall|i: int|
            0 <= i < n ==> #[trigger] k.0@[i] == i + 1,
{
    match redjubjub::frost::keygen_with_dealer(n, t, rand::thread_rng()) {
        Ok((shares, pubkeys)) => {
            let key = <[u8; 32]>::from(pubkeys.group_public).to_vec();
            Some((shares.iter().map(|s| s.index).collect(), shares, pubkeys, key))
        },
        Err(_) => None,
    }
}

/// Relies on redjubjub's frost::preprocess: `num` fresh nonce pairs and the
/// commitments to them, each commitment carrying participant `index`.
#[verifier::external_body]
fn preprocess(num: u8, index: u64) -> (r: (Vec<SigningNonces>, Vec<SigningCommitments>))
    ensures
        r.0@.len() == num,
        r.1@.len() == num,
{
    redjubjub::frost::preprocess(num, index, &mut rand::thread_rng())
}

/// Relies on redjubjub's frost::sign over the signing package of every
/// signer's commitment for input `i` and `message`, with the key share's
/// package, whose own index is the share's signer. frost::sign looks up the
/// binding factor of that index among the commitments' indices, so it fails
/// when the signer has no commitment there. (It also fails when a commitment
/// is the identity point, which has no plain-value view here.)
#[verifier::external_body]
fn sign_share(set: &CommitmentSet, i: usize, message: &[u8], nonces: SigningNonces, share: &KeyShare) -> (r: Option<SignatureShare>)
    requires
        set.wf(),
        i < set.num_inputs,
    ensures
        r is Some ==> set.indices().contains(share.signer()),
{
    let commitments = set.signers.iter().map(|c| c.per_input[i]).collect();
    let package = redjubjub::frost::SigningPackage { signing_commitments: commitments, message: message.to_vec() };
    redjubjub::frost::sign(&package, nonces, &share.package).ok()
}

/// Relies on redjubjub's frost::aggregate over every signer's commitment for
/// input `i`, `message` and each signer's share for that input: it checks
/// every share and sums them into a 64-byte spend authorization signature.
/// It looks up the public key of each share's signer, whose index is
/// `signer()`, in the group's package, which holds signers `1..=n`.
#[verifier::external_body]
fn aggregate_shares(set: &CommitmentSet, i: usize, message: &[u8], shares: &Vec<SignerShares>, group: &GroupKey) -> (r: Option<Vec<u8>>)
    requires
        set.wf(),
        i < set.num_inputs,
        forall|k: int| 0 <= k < shares@.len() ==> (#[trigger] shares@[k]).count() == set.num_inputs,
        forall|k: int| 0 <= k < shares@.len() ==> 1 <= (#[trigger] shares@[k]).signer() <= group.signers(),
    ensures
        r matches Some(s) ==> s@.len() == 64,
{
    let commitments = set.signers.iter().map(|c| c.per_input[i]).collect();
    let input_shares: Vec<SignatureShare> = shares.iter().map(|s| s.shares[i]).collect();
    let package = redjubjub::frost::SigningPackage { signing_commitments: commitments, message: message.to_vec() };
    match redjubjub::frost::aggregate(&package, input_shares.as_slice(), &group.pubkeys) {
        Ok(sig) => Some(<[u8; 64]>::from(sig).to_vec()),
        Err(_) => None,
    }
}

/// Whether the 32 bytes `key` encode a spend authorization key under which
/// the 64-byte `sig` is a valid signature of `message`.
pub uninterp spec fn spend_auth_valid(key: Seq<u8>, message: Seq<u8>, sig: Seq<u8>) -> bool;

/// Relies on redjubjub's VerificationKey::try_from for the key bytes and
/// VerificationKey::verify of a 64-byte signature over `message`; the
/// outcome depends on the bytes alone.
#[verifier::external_body]
fn verify_spend_auth(key: &Vec<u8>, message: &[u8], sig: &Vec<u8>) -> (r: bool)
    requires
        key@.len() == 32,
        sig@.len() == 64,
    ensures
        r == spend_auth_valid(key@, message@, sig@),
{
    let mut key_bytes = [0u8; 32];
    key_bytes.copy_from_slice(key.as_slice());
    let mut bytes = [0u8; 64];
    bytes.copy_from_slice(sig.as_slice());
    let sig = redjubjub::Signature::<redjubjub::SpendAuth>::from(bytes);
    match redjubjub::VerificationKey::<redjubjub::SpendAuth>::try_from(key_bytes) {
        Ok(vk) => vk.verify(message, &sig).is_ok(),
        Err(_) => false,
    }
}

/// A signer's secret share from the ceremony, with the signer's index.
pub struct KeyShare {
    index: u64,
    package: SharePackage,
}

impl KeyShare {
    pub closed spec fn signer(&self) -> u64 {
        self.index
    }

    pub fn index(&self) -> (r: u64)
        ensures
            r == self.signer(),
    {
        self.index
    }
}

/// The group's public key package, with the number of signers and the
/// threshold it was made for.
pub struct GroupKey {
    pubkeys: PublicKeyPackage,
    key: Vec<u8>,
    num_signers: u8,
    threshold: u8,
}

impl GroupKey {
    /// The group's public spend authorization key, as bytes.
    pub closed spec fn key(&self) -> Seq<u8> {
        self.key@
    }

    pub closed spec fn wf(&self) -> bool {
        self.key@.len() == 32
    }

    pub fn key_bytes(&self) -> (r: Vec<u8>)
        requires
            self.wf(),
        ensures
            r@ == self.key(),
            r@.len() == 32,
    {
        let r = self.key.clone();
        assert(r@ =~= self.key@);
        r
    }

    pub closed spec fn signers(&self) -> nat {
        self.num_signers as nat
    }

    pub closed spec fn min_signers(&self) -> nat {
        self.threshold as nat
    }

    pub fn num_signers(&self) -> (r: u8)
        ensures
            r == self.signers(),
    {
        self.num_signers
    }

    pub fn threshold(&self) -> (r: u8)
        ensures
            r == self.min_signers(),
    {
        self.threshold
    }
}

/// The dealer's ceremony: `n` secret shares, any `t` of which can sign
/// together, and the group's public key package. Refused unless
/// `1 <= t <= n <= 254`.
pub fn multisig_gen(n: u32, t: u32) -> (r: Result<(Vec<KeyShare>, GroupKey), WalletError>)
    ensures
        r is Ok <==> 1 <= t <= n <= 254,
        r is Err ==> r == Err::<(Vec<KeyShare>, GroupKey), WalletError>(WalletError::InvalidThreshold(n, t)),
        r matches Ok(c) ==> {
            &&& c.0@.len() == n
            &&& forall|i: int| 0 <= i < n ==> (#[trigger] c.0@[i]).signer() == i + 1
            &&& c.1.signers() == n
            &&& c.1.min_signers() == t
            &&& c.1.wf()
        },
{
    if t < 1 || t > n || n > 254 {
        return Err(WalletError::InvalidThreshold(n, t));
    }
    let (indices, packages, pubkeys, key) = match dealer_keygen(n as u8, t as u8) {
        Some(k) => k,
        None => {
            return Err(WalletError::InvalidThreshold(n, t));
        },
    };
    let mut packages = packages;
    let mut shares: Vec<KeyShare> = Vec::new();
    let ghost all = packages@;
    // Take the packages from the back so that each is moved, then restore order.
    let mut rev: Vec<KeyShare> = Vec::new();
    let mut k: usize = packages.len();
    while k > 0
        invariant
            packages@.len() == k,
            indices@.len() == n,
            all.len() == n,
            k <= n,
            rev@.len() == n - k,
            forall|j: int| 0 <= j < rev@.len() ==> (#[trigger] rev@[j]).index == indices@[n - 1 - j],
        decreases k,
    {
        let p = packages.pop().unwrap();
        k = k - 1;
        rev.push(KeyShare { index: indices[k], package: p });
    }
    while rev.len() > 0
        invariant
            rev@.len() + shares@.len() == n,
            indices@.len() == n,
            forall|j: int| 0 <= j < rev@.len() ==> (#[trigger] rev@[j]).index == indices@[n - 1 - j],
            forall|j: int| 0 <= j < shares@.len() ==> (#[trigger] shares@[j]).index == indices@[j],
        decreases rev@.len(),
    {
        let s = rev.pop().unwrap();
        shares.push(s);
    }
    Ok((shares, GroupKey { pubkeys, key, num_signers: n as u8, threshold: t as u8 }))
}

/// One signer's published round-one commitments, one per input, each
/// carrying the signer's index.
pub struct SignerCommitments {
    index: u64,
    per_input: Vec<SigningCommitments>,
}

impl SignerCommitments {
    pub closed spec fn signer(&self) -> u64 {
        self.index
    }

    pub closed spec fn count(&self) -> nat {
        self.per_input@.len()
    }

    pub fn index(&self) -> (r: u64)
        ensures
            r == self.signer(),
    {
        self.index
    }

    pub fn len(&self) -> (r: usize)
        ensures
            r == self.count(),
    {
        self.per_input.len()
    }
}

/// One signer's private round-one nonces, one per input. They sign once.
pub struct SignerNonces {
    index: u64,
    nonces: Vec<SigningNonces>,
    used: bool,
}

impl SignerNonces {
    /// Not yet used to sign.
    pub closed spec fn fresh(&self) -> bool {
        !self.used
    }

    pub closed spec fn signer(&self) -> u64 {
        self.index
    }

    pub closed spec fn count(&self) -> nat {
        self.nonces@.len()
    }

    pub fn index(&self) -> (r: u64)
        ensures
            r == self.signer(),
    {
        self.index
    }
}

/// Round one for signer `index` on `tx`: fresh nonces for every input,
/// kept by the signer, and the commitments to them, which are published.
pub fn make_commitments(index: u64, tx: &Tx) -> (r: (SignerNonces, SignerCommitments))
    ensures
        r.0.fresh(),
        r.0.signer() == index,
        r.0.count() == tx.inputs@.len(),
        r.1.signer() == index,
        r.1.count() == tx.inputs@.len(),
{
    let mut nonces: Vec<SigningNonces> = Vec::new();
    let mut commitments: Vec<SigningCommitments> = Vec::new();
    let mut i: usize = 0;
    while i < tx.inputs.len()
        invariant
            0 <= i <= tx.inputs.len(),
            nonces@.len() == i,
            commitments@.len() == i,
        decreases tx.inputs.len() - i,
    {
        let (mut n, mut c) = preprocess(1, index);
        nonces.append(&mut n);
        commitments.append(&mut c);
        i = i + 1;
    }
    (SignerNonces { index, nonces, used: false }, SignerCommitments { index, per_input: commitments })
}

/// The commitments collected from the signers before round two, each
/// signer once, each with one commitment per input.
pub struct CommitmentSet {
    pub num_inputs: usize,
    pub signers: Vec<SignerCommitments>,
}

impl CommitmentSet {
    /// The signers' indices, in the order they were added.
    pub open spec fn indices(&self) -> Seq<u64> {
        self.signers@.map_values(|s: SignerCommitments| s.signer())
    }

    pub open spec fn wf(&self) -> bool {
        &&& forall|k: int|
            0 <= k < self.signers@.len() ==> (#[trigger] self.signers@[k]).count()
                == self.num_inputs
        &&& forall|a: int, b: int|
            0 <= a < b < self.signers@.len() ==> self.signers@[a].signer() != self.signers@[b].signer()
    }

    pub fn new(num_inputs: usize) -> (r: CommitmentSet)
        ensures
            r.wf(),
            r.num_inputs == num_inputs,
            r.indices().len() == 0,
    {
        CommitmentSet { num_inputs, signers: Vec::new() }
    }

    /// Whether signer `index` has committed.
    pub fn has_signer(&self, index: u64) -> (r: bool)
        ensures
            r == self.indices().contains(index),
    {
        let mut k: usize = 0;
        while k < self.signers.len()
            invariant
                0 <= k <= self.signers.len(),
                forall|j: int| 0 <= j < k ==> self.signers@[j].signer() != index,
            decreases self.signers.len() - k,
        {
            if self.signers[k].index == index {
                assert(self.indices()[k as int] == index);
                return true;
            }
            k = k + 1;
        }
        proof {
            if self.indices().contains(index) {
                let j = choose|j: int| 0 <= j < self.indices().len() && self.indices()[j] == index;
                assert(self.signers@[j].signer() == index);
            }
        }
        false
    }

    /// Merges one signer's commitments in. A signer already present, or
    /// commitments for another number of inputs, are refused and the set
    /// stays as it was.
    pub fn add(&mut self, c: SignerCommitments) -> (r: Result<(), WalletError>)
        requires
            old(self).wf(),
        ensures
            final(self).wf(),
            final(self).num_inputs == old(self).num_inputs,
            r is Ok <==> c.count() == old(self).num_inputs && !old(self).indices().contains(c.signer()),
            r is Ok ==> final(self).indices() == old(self).indices().push(c.signer()),
            r is Err ==> r == Err::<(), WalletError>(WalletError::TxParse) && final(self).indices() == old(self).indices(),
    {
        if c.per_input.len() != self.num_inputs || self.has_signer(c.index) {
            return Err(WalletError::TxParse);
        }
        let ghost before = self.indices();
        self.signers.push(c);
        proof {
            assert(self.indices() =~= before.push(c.signer()));
            assert forall|a: int, b: int|
                0 <= a < b < self.signers@.len() implies self.signers@[a].signer() != self.signers@[b].signer() by {
                if b == self.signers@.len() - 1 {
                    assert(before[a] == self.signers@[a].signer());
                }
            }
        }
        Ok(())
    }
}

/// `s` lists each position below `n` exactly once.
pub open spec fn is_permutation(s: Seq<usize>, n: nat) -> bool {
    &&& s.len() == n
    &&& forall|i: int| 0 <= i < n ==> #[trigger] s[i] < n
    &&& forall|i: int, j: int| 0 <= i < j < n ==> s[i] != s[j]
}

fn check_permutation(s: &Vec<usize>, n: usize) -> (r: bool)
    ensures
        r == is_permutation(s@, n as nat),
{
    if s.len() != n {
        return false;
    }
    let mut i: usize = 0;
    while i < n
        invariant
            s@.len() == n,
            0 <= i <= n,
            forall|a: int| 0 <= a < i ==> #[trigger] s@[a] < n,
            forall|a: int, b: int| 0 <= a < b < n && a < i ==> s@[a] != s@[b],
        decreases n - i,
    {
        if s[i] >= n {
            return false;
        }
        let mut j: usize = i + 1;
        while j < n
            invariant
                s@.len() == n,
                i < n,
                i + 1 <= j <= n,
                forall|b: int| i < b < j ==> s@[i as int] != s@[b],
            decreases n - j,
        {
            if s[i] == s[j] {
                return false;
            }
            j = j + 1;
        }
        i = i + 1;
    }
    true
}

/// The artifact of round two: the proved but unsigned transaction, its
/// sighash, where each logical input sits among the transaction's spends,
/// and the round-one commitments.
pub struct TxBin {
    pub tx_data: Vec<u8>,
    pub sighash: Vec<u8>,
    pub spend_indices: Vec<usize>,
    pub commitments: CommitmentSet,
}

impl TxBin {
    pub open spec fn wf(&self) -> bool {
        &&& self.commitments.wf()
        &&& is_permutation(self.spend_indices@, self.commitments.num_inputs as nat)
    }

    /// Packages what the transaction builder produced for `tx` with the
    /// merged commitments. Refused unless the commitments cover exactly the
    /// inputs of `tx` and `spend_indices` places each input once.
    pub fn new(tx: &Tx, commitments: CommitmentSet, tx_data: Vec<u8>, sighash: Vec<u8>, spend_indices: Vec<usize>) -> (r: Result<TxBin, WalletError>)
        requires
            commitments.wf(),
        ensures
            r is Ok <==> commitments.num_inputs == tx.inputs@.len() && is_permutation(
                spend_indices@,
                tx.inputs@.len() as nat,
            ),
            r is Err ==> r == Err::<TxBin, WalletError>(WalletError::TxParse),
            r matches Ok(b) ==> b.wf() && b.tx_data@ == tx_data@ && b.sighash@ == sighash@
                && b.spend_indices@ == spend_indices@ && b.commitments.indices()
                == commitments.indices() && b.commitments.num_inputs == tx.inputs@.len(),
    {
        if commitments.num_inputs != tx.inputs.len() || !check_permutation(&spend_indices, tx.inputs.len()) {
            return Err(WalletError::TxParse);
        }
        Ok(TxBin { tx_data, sighash, spend_indices, commitments })
    }
}

/// Round three for one signer: a signature share per input of `bin`, made
/// with the signer's round-one nonces and secret share. The nonces are spent
/// by the attempt, whatever its outcome; spent nonces are refused. Nonces
/// and a key share of different signers, a signer without a round-one
/// commitment in `bin`, or nonces for another number of inputs, are refused
/// too. Past those checks only the signing scheme can refuse.
pub fn multi_sign_one(bin: &TxBin, nonces: &mut SignerNonces, share: &KeyShare) -> (r: Result<SignerShares, WalletError>)
    requires
        bin.wf(),
    ensures
        !final(nonces).fresh(),
        final(nonces).signer() == old(nonces).signer(),
        final(nonces).count() == old(nonces).count(),
        !old(nonces).fresh() ==> r == Err::<SignerShares, WalletError>(WalletError::NonceReuse),
        old(nonces).fresh() && (old(nonces).count() != bin.commitments.num_inputs
            || old(nonces).signer() != share.signer()
            || !bin.commitments.indices().contains(old(nonces).signer())) ==> r == Err::<
            SignerShares,
            WalletError,
        >(WalletError::TxParse),
        old(nonces).fresh() && old(nonces).count() == bin.commitments.num_inputs
            && old(nonces).signer() == share.signer() && bin.commitments.indices().contains(
            share.signer(),
        ) ==> (r is Ok || r == Err::<SignerShares, WalletError>(WalletError::SigningRefused)),
        r matches Ok(v) ==> v.signer() == share.signer() && v.count() == bin.commitments.num_inputs,
{
    if nonces.used {
        return Err(WalletError::NonceReuse);
    }
    nonces.used = true;
    let n = bin.commitments.num_inputs;
    if nonces.nonces.len() != n || nonces.index != share.index || !bin.commitments.has_signer(nonces.index) {
        return Err(WalletError::TxParse);
    }
    let mut out: Vec<SignatureShare> = Vec::new();
    let mut i: usize = 0;
    while i < n
        invariant
            bin.wf(),
            n == bin.commitments.num_inputs,
            nonces.nonces@.len() == n,
            nonces.used,
            !old(nonces).used,
            nonces.index == old(nonces).index,
            nonces.index == share.signer(),
            bin.commitments.indices().contains(share.signer()),
            old(nonces).nonces@.len() == n,
            0 <= i <= n,
            out@.len() == i,
        decreases n - i,
    {
        match sign_share(&bin.commitments, i, bin.sighash.as_slice(), nonces.nonces[i], share) {
            Some(s) => out.push(s),
            None => {
                return Err(WalletError::SigningRefused);
            },
        }
        i = i + 1;
    }
    Ok(SignerShares { index: share.index, shares: out })
}

/// One signer's round-three output: a signature share per input.
pub struct SignerShares {
    index: u64,
    shares: Vec<SignatureShare>,
}

impl SignerShares {
    pub closed spec fn signer(&self) -> u64 {
        self.index
    }

    pub closed spec fn count(&self) -> nat {
        self.shares@.len()
    }

    pub fn index(&self) -> (r: u64)
        ensures
            r == self.signer(),
    {
        self.index
    }

    pub fn len(&self) -> (r: usize)
        ensures
            r == self.count(),
    {
        self.shares.len()
    }
}

/// Places the per-input signatures at the spend positions of the
/// transaction: the signature of input `i` goes to `spend_indices[i]`. Only
/// where every input has a signature; otherwise aggregation has failed.
pub fn assemble_signatures(spend_indices: &Vec<usize>, results: &Vec<Option<Vec<u8>>>) -> (r: Result<Vec<Vec<u8>>, WalletError>)
    requires
        is_permutation(spend_indices@, results@.len()),
    ensures
        r is Ok <==> forall|i: int| 0 <= i < results@.len() ==> #[trigger] results@[i] is Some,
        r is Err ==> r == Err::<Vec<Vec<u8>>, WalletError>(WalletError::AggregationFailed),
        r matches Ok(v) ==> v@.len() == results@.len() && forall|i: int|
            0 <= i < results@.len() ==> v@[#[trigger] spend_indices@[i] as int]@ == results@[i]->Some_0@,
{
    let n = results.len();
    let mut i: usize = 0;
    while i < n
        invariant
            n == results@.len(),
            0 <= i <= n,
            forall|j: int| 0 <= j < i ==> #[trigger] results@[j] is Some,
        decreases n - i,
    {
        if results[i].is_none() {
            return Err(WalletError::AggregationFailed);
        }
        i = i + 1;
    }
    let mut placed: Vec<Vec<u8>> = Vec::new();
    let mut k: usize = 0;
    while k < n
        invariant
            0 <= k <= n,
            placed@.len() == k,
        decreases n - k,
    {
        placed.push(Vec::new());
        k = k + 1;
    }
    let mut i: usize = 0;
    while i < n
        invariant
            n == results@.len(),
            is_permutation(spend_indices@, n as nat),
            forall|j: int| 0 <= j < n ==> #[trigger] results@[j] is Some,
            0 <= i <= n,
            placed@.len() == n,
            forall|j: int| 0 <= j < i ==> placed@[#[trigger] spend_indices@[j] as int]@ == results@[j]->Some_0@,
        decreases n - i,
    {
        let sig = match &results[i] {
            Some(s) => s.clone(),
            None => Vec::new(),
        };
        assert(sig@ =~= results@[i as int]->Some_0@);
        let ghost before = placed@;
        placed.set(spend_indices[i], sig);
        proof {
            assert forall|j: int| 0 <= j <= i implies placed@[#[trigger] spend_indices@[j] as int]@ == results@[j]->Some_0@ by {
                if j < i {
                    assert(spend_indices@[j] != spend_indices@[i as int]);
                }
            }
        }
        i = i + 1;
    }
    Ok(placed)
}

/// The transaction once every input carries its spend authorization: the
/// proved transaction and the signatures by spend position.
pub struct SignedTx {
    pub tx_data: Vec<u8>,
    pub spend_auth_sigs: Vec<Vec<u8>>,
}

fn has_duplicate_signer(shares: &Vec<SignerShares>) -> (r: bool)
    ensures
        r <==> exists|a: int, b: int| 0 <= a < b < shares@.len() && shares@[a].signer() == shares@[b].signer(),
{
    let mut a: usize = 0;
    while a < shares.len()
        invariant
            0 <= a <= shares.len(),
            forall|x: int, y: int| 0 <= x < y < shares@.len() && x < a ==> shares@[x].index != shares@[y].index,
        decreases shares.len() - a,
    {
        let mut b: usize = a + 1;
        while b < shares.len()
            invariant
                a < shares.len(),
                a + 1 <= b <= shares.len(),
                forall|y: int| a < y < b ==> shares@[a as int].index != shares@[y].index,
            decreases shares.len() - b,
        {
            if shares[a].index == shares[b].index {
                assert(shares@[a as int].signer() == shares@[b as int].signer());
                return true;
            }
            b = b + 1;
        }
        a = a + 1;
    }
    false
}

/// Whether the signers of `shares` are distinct signers of the group, at
/// least as many as its threshold, each of which committed in round one and
/// gave one share per input.
pub open spec fn shares_acceptable(bin: &TxBin, group: &GroupKey, shares: Seq<SignerShares>) -> bool {
    &&& forall|k: int|
        0 <= k < shares.len() ==> {
            let s = #[trigger] shares[k];
            &&& bin.commitments.indices().contains(s.signer())
            &&& s.count() == bin.commitments.num_inputs
            &&& 1 <= s.signer() <= group.signers()
        }
    &&& forall|a: int, b: int| 0 <= a < b < shares.len() ==> shares[a].signer() != shares[b].signer()
    &&& shares.len() >= group.min_signers()
}

/// Whether `sig` is an aggregated signature that the group key accepts over
/// `message`.
pub open spec fn signature_accepted(key: Seq<u8>, message: Seq<u8>, sig: Option<Vec<u8>>) -> bool {
    sig matches Some(s) && s@.len() == 64 && spend_auth_valid(key, message, s@)
}

/// Checks the aggregated signature of each input against the group key and
/// the sighash and places them at the inputs' spend positions. One missing
/// or invalid signature fails the whole transaction.
pub fn place_signatures(bin: &TxBin, group: &GroupKey, sigs: &Vec<Option<Vec<u8>>>) -> (r: Result<SignedTx, WalletError>)
    requires
        bin.wf(),
        group.wf(),
        sigs@.len() == bin.commitments.num_inputs,
    ensures
        r is Ok <==> forall|i: int|
            0 <= i < sigs@.len() ==> signature_accepted(group.key(), bin.sighash@, #[trigger] sigs@[i]),
        r is Err ==> r == Err::<SignedTx, WalletError>(WalletError::AggregationFailed),
        r matches Ok(t) ==> t.tx_data@ == bin.tx_data@ && t.spend_auth_sigs@.len() == sigs@.len()
            && forall|i: int|
            0 <= i < sigs@.len() ==> t.spend_auth_sigs@[#[trigger] bin.spend_indices@[i] as int]@
                == sigs@[i]->Some_0@,
{
    let n = sigs.len();
    let key = group.key_bytes();
    let mut i: usize = 0;
    while i < n
        invariant
            n == sigs@.len(),
            key@ == group.key(),
            key@.len() == 32,
            0 <= i <= n,
            forall|j: int| 0 <= j < i ==> signature_accepted(group.key(), bin.sighash@, #[trigger] sigs@[j]),
        decreases n - i,
    {
        match &sigs[i] {
            Some(s) => {
                if s.len() != 64 || !verify_spend_auth(&key, bin.sighash.as_slice(), s) {
                    return Err(WalletError::AggregationFailed);
                }
            },
            None => {
                return Err(WalletError::AggregationFailed);
            },
        }
        i = i + 1;
    }
    let placed = match assemble_signatures(&bin.spend_indices, sigs) {
        Ok(v) => v,
        Err(e) => {
            return Err(e);
        },
    };
    let tx_data = bin.tx_data.clone();
    assert(tx_data@ =~= bin.tx_data@);
    Ok(SignedTx { tx_data, spend_auth_sigs: placed })
}

/// Round four: aggregates the signers' shares into one signature per input,
/// checks each against the group key and the sighash, and places them at
/// the inputs' spend positions. Shares from signers that did not commit in
/// round one, a repeated signer, fewer signers than the threshold, or any
/// input whose signature does not verify fail the whole transaction.
pub fn combine(bin: &TxBin, group: &GroupKey, shares: &Vec<SignerShares>) -> (r: Result<SignedTx, WalletError>)
    requires
        bin.wf(),
        group.wf(),
    ensures
        !shares_acceptable(bin, group, shares@) ==> r == Err::<SignedTx, WalletError>(WalletError::AggregationFailed),
        r is Err ==> r == Err::<SignedTx, WalletError>(WalletError::AggregationFailed),
        r matches Ok(t) ==> t.tx_data@ == bin.tx_data@ && t.spend_auth_sigs@.len() == bin.commitments.num_inputs
            && forall|i: int|
            0 <= i < bin.commitments.num_inputs ==> {
                let sig = (#[trigger] t.spend_auth_sigs@[bin.spend_indices@[i] as int])@;
                sig.len() == 64 && spend_auth_valid(group.key(), bin.sighash@, sig)
            },
{
    let n = bin.commitments.num_inputs;
    let mut k: usize = 0;
    while k < shares.len()
        invariant
            bin.wf(),
            n == bin.commitments.num_inputs,
            0 <= k <= shares.len(),
            forall|j: int|
                0 <= j < k ==> {
                    let s = #[trigger] shares@[j];
                    &&& bin.commitments.indices().contains(s.signer())
                    &&& s.count() == n
                    &&& 1 <= s.signer() <= group.signers()
                },
        decreases shares.len() - k,
    {
        let s = &shares[k];
        if !bin.commitments.has_signer(s.index) || s.shares.len() != n || s.index < 1
            || s.index > group.num_signers() as u64 {
            return Err(WalletError::AggregationFailed);
        }
        k = k + 1;
    }
    if has_duplicate_signer(shares) || shares.len() < group.threshold() as usize {
        return Err(WalletError::AggregationFailed);
    }
    let mut results: Vec<Option<Vec<u8>>> = Vec::new();
    let mut i: usize = 0;
    while i < n
        invariant
            bin.wf(),
            n == bin.commitments.num_inputs,
            0 <= i <= n,
            results@.len() == i,
            forall|j: int| 0 <= j < shares@.len() ==> (#[trigger] shares@[j]).count() == n,
            forall|j: int| 0 <= j < shares@.len() ==> 1 <= (#[trigger] shares@[j]).signer() <= group.signers(),
        decreases n - i,
    {
        let sig = aggregate_shares(&bin.commitments, i, bin.sighash.as_slice(), shares, group);
        results.push(sig);
        i = i + 1;
    }
    let r = place_signatures(bin, group, &results);
    proof {
        if r is Ok {
            let t = r->Ok_0;
            assert forall|i: int| 0 <= i < n implies {
                let sig = (#[trigger] t.spend_auth_sigs@[bin.spend_indices@[i] as int])@;
                sig.len() == 64 && spend_auth_valid(group.key(), bin.sighash@, sig)
            } by {
                assert(signature_accepted(group.key(), bin.sighash@, results@[i]));
            }
        }
    }
    r
}

} // verus!
