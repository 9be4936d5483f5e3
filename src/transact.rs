//! Note selection and assembly of the unsigned transaction.
use vstd::prelude::*;
use crate::error::WalletError;
use crate::hexcodec::{encode_hex, hex_of};
use crate::tx::{
    lemma_sum_values_monotone, lemma_sum_values_take, sum_values, ReceivedNote, Tx, TxIn, TxOut,
};

verus! {

/// The fixed fee of a transaction, in zatoshis.
pub const DEFAULT_FEE: u64 = 1000;

/// The largest amount of money that can exist, in zatoshis.
pub const MAX_MONEY: u64 = 2_100_000_000_000_000;

/// Where a payment goes.
#[derive(Debug, Clone, PartialEq, Eq)]
pub enum Recipient {
    /// A shielded payment address, in its encoded form.
    Shielded(String),
    /// A transparent address, in its encoded form.
    Transparent(String),
}

/// The length of the shortest prefix of `s`, at least `k` long, whose total
/// reaches `target`, or the length of `s` when none does.
pub open spec fn cover_len(s: Seq<ReceivedNote>, target: nat, k: nat) -> nat
    decreases s.len() - k,
{
    if k >= s.len() || sum_values(s.take(k as int)) >= target {
        k
    } else {
        cover_len(s, target, k + 1)
    }
}

/// What selection for `target` gives on the unspent notes `s`: the number of
/// notes taken, in index order, or the shortfall.
pub open spec fn selection(s: Seq<ReceivedNote>, target: nat) -> Result<nat, WalletError> {
    if sum_values(s) >= target {
        Ok(cover_len(s, target, 0))
    } else {
        Err(WalletError::NotEnoughFunds(sum_values(s) as u64, target as u64))
    }
}

pub proof fn lemma_cover_len_least(s: Seq<ReceivedNote>, target: nat, k: nat)
    requires
        k <= s.len(),
        sum_values(s) >= target,
    ensures
        k <= cover_len(s, target, k) <= s.len(),
        sum_values(s.take(cover_len(s, target, k) as int)) >= target,
        forall|j: nat|
            k <= j < cover_len(s, target, k) ==> sum_values(#[trigger] s.take(j as int)) < target,
    decreases s.len() - k,
{
    assert(s.take(s.len() as int) =~= s);
    if k < s.len() && sum_values(s.take(k as int)) < target {
        lemma_cover_len_least(s, target, k + 1);
    }
}

/// Picks the unspent notes that pay for `target`: the shortest prefix, in
/// index order, whose total reaches it. Returns how many notes are taken.
pub fn select_notes(notes: &Vec<ReceivedNote>, target: u64) -> (r: Result<usize, WalletError>)
    requires
        sum_values(notes@) <= MAX_MONEY,
    ensures
        r matches Ok(k) ==> selection(notes@, target as nat) == Ok::<nat, WalletError>(k as nat),
        r matches Err(e) ==> selection(notes@, target as nat) == Err::<nat, WalletError>(e),
        r is Ok <==> sum_values(notes@) >= target,
{
    let mut acc: u64 = 0;
    let mut i: usize = 0;
    while i < notes.len() && acc < target
        invariant
            0 <= i <= notes.len(),
            acc == sum_values(notes@.take(i as int)),
            sum_values(notes@) <= MAX_MONEY,
            cover_len(notes@, target as nat, 0) == cover_len(notes@, target as nat, i as nat),
        decreases notes.len() - i,
    {
        proof {
            lemma_sum_values_take(notes@, i as int);
            lemma_sum_values_monotone(notes@, i as int + 1, notes.len() as int);
            assert(notes@.take(notes.len() as int) =~= notes@);
        }
        acc = acc + notes[i].value;
        i = i + 1;
    }
    proof {
        assert(notes@.take(notes.len() as int) =~= notes@);
        lemma_sum_values_monotone(notes@, i as int, notes.len() as int);
    }
    if acc < target {
        Err(WalletError::NotEnoughFunds(acc, target))
    } else {
        Ok(i)
    }
}

/// Selecting for a target equal to the total of the unspent notes succeeds;
/// selecting for one unit more fails, reporting the total and that target.
pub proof fn lemma_select_exact_total(s: Seq<ReceivedNote>)
    requires
        sum_values(s) < u64::MAX,
    ensures
        selection(s, sum_values(s)) is Ok,
        selection(s, sum_values(s) + 1) == Err::<nat, WalletError>(
            WalletError::NotEnoughFunds(sum_values(s) as u64, (sum_values(s) + 1) as u64),
        ),
{
}

/// The outcome of submitting a transaction, from the relay's reply: a zero
/// code is success, and the message is then the transaction id; any other
/// code is a rejection, reported with its code and message.
pub fn submit_outcome(error_code: i32, error_message: String) -> (r: Result<String, WalletError>)
    ensures
        error_code == 0 ==> r == Ok::<String, WalletError>(error_message),
        error_code != 0 ==> r == Err::<String, WalletError>(WalletError::Submit(error_code, error_message)),
{
    if error_code != 0 {
        Err(WalletError::Submit(error_code, error_message))
    } else {
        Ok(error_message)
    }
}

/// The input that spends note `n`.
pub open spec fn spends(i: TxIn, n: ReceivedNote) -> bool {
    &&& i.diversifier@ == hex_of(n.diversifier@)
    &&& i.addr@ == n.addr@
    &&& i.amount == n.value
    &&& i.z212 == n.z212
    &&& i.rseed@ == hex_of(n.rseed@)
    &&& i.witness@ == hex_of(n.witness@)
}

fn input_for(n: &ReceivedNote) -> (r: TxIn)
    ensures
        spends(r, *n),
{
    TxIn {
        diversifier: encode_hex(n.diversifier.as_slice()),
        addr: n.addr.clone(),
        amount: n.value,
        z212: n.z212,
        rseed: encode_hex(n.rseed.as_slice()),
        witness: encode_hex(n.witness.as_slice()),
    }
}

/// Builds the unsigned transaction that pays `amount` zatoshis to `to` from
/// the unspent notes `notes`, targeting block `height`, with outgoing viewing
/// key `ovk`. The notes, all unspent, pay for the amount and the fixed fee.
pub fn prepare_tx(notes: &Vec<ReceivedNote>, to: &Recipient, amount: u64, height: u32, ovk: &[u8]) -> (r: Result<Tx, WalletError>)
    requires
        forall|k: int| 0 <= k < notes@.len() ==> !(#[trigger] notes@[k]).spent,
        sum_values(notes@) <= MAX_MONEY,
        amount <= MAX_MONEY - DEFAULT_FEE,
    ensures
        sum_values(notes@) < amount + DEFAULT_FEE ==> r == Err::<Tx, WalletError>(
            WalletError::NotEnoughFunds(sum_values(notes@) as u64, (amount + DEFAULT_FEE) as u64),
        ),
        sum_values(notes@) >= amount + DEFAULT_FEE && to is Transparent ==> r == Err::<Tx, WalletError>(
            WalletError::UnsupportedRecipient(to->Transparent_0),
        ),
        r is Ok <==> sum_values(notes@) >= amount + DEFAULT_FEE && to is Shielded,
        r matches Ok(tx) ==> {
            let k = cover_len(notes@, (amount + DEFAULT_FEE) as nat, 0);
            &&& tx.height == height
            &&& tx.inputs@.len() == k
            &&& forall|j: int| 0 <= j < k ==> spends(#[trigger] tx.inputs@[j], notes@[j])
            &&& tx.output matches Some(o) && o.addr@ == to->Shielded_0@ && o.amount == amount
                && o.ovk@ == hex_of(ovk@)
        },
{
    let target = amount + DEFAULT_FEE;
    let k = match select_notes(notes, target) {
        Ok(k) => k,
        Err(e) => {
            return Err(e);
        },
    };
    let addr = match to {
        Recipient::Shielded(a) => a.clone(),
        Recipient::Transparent(a) => {
            return Err(WalletError::UnsupportedRecipient(a.clone()));
        },
    };
    proof {
        lemma_cover_len_least(notes@, target as nat, 0);
    }
    let mut inputs: Vec<TxIn> = Vec::new();
    let mut j: usize = 0;
    while j < k
        invariant
            k <= notes.len(),
            0 <= j <= k,
            inputs@.len() == j,
            forall|m: int| 0 <= m < j ==> spends(#[trigger] inputs@[m], notes@[m]),
        decreases k - j,
    {
        let input = input_for(&notes[j]);
        inputs.push(input);
        j = j + 1;
    }
    let output = TxOut { addr, amount, ovk: encode_hex(ovk) };
    Ok(Tx { height: height as i64, inputs, output: Some(output) })
}

} // verus!
