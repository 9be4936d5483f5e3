//! Reading the spend data back out of an unsigned transaction, as the
//! signing device needs it before handing the spends to the builder.
use vstd::prelude::*;
use crate::error::WalletError;
use crate::hexcodec::{decode_hex, hex_value, lemma_hex_round_trip};
use crate::transact::{cover_len, lemma_cover_len_least, spends, DEFAULT_FEE};
use crate::tx::{lemma_sum_values_monotone, sum_values, ReceivedNote, Tx, TxIn};

verus! {

/// Length of a diversifier, in bytes.
pub const DIVERSIFIER_LEN: usize = 11;

/// Length of a note's rseed, in bytes.
pub const RSEED_LEN: usize = 32;

/// The spend data of one input, as bytes.
#[derive(Debug, Clone, PartialEq, Eq)]
pub struct SpendInput {
    pub diversifier: Vec<u8>,
    pub addr: String,
    pub amount: u64,
    pub z212: bool,
    pub rseed: Vec<u8>,
    pub witness: Vec<u8>,
}

/// Hex text of exactly `len` bytes.
pub open spec fn hex_of_len(s: Seq<char>, len: nat) -> bool {
    hex_value(s) matches Some(b) && b.len() == len
}

/// Whether every hex field of an input decodes, with the lengths the
/// builder needs.
pub open spec fn input_decodable(i: TxIn) -> bool {
    &&& hex_of_len(i.diversifier@, DIVERSIFIER_LEN as nat)
    &&& hex_of_len(i.rseed@, RSEED_LEN as nat)
    &&& hex_value(i.witness@) is Some
}

/// `s` is the spend data that input `i` carries.
pub open spec fn decoded_from(s: SpendInput, i: TxIn) -> bool {
    &&& Some(s.diversifier@) == hex_value(i.diversifier@)
    &&& s.addr@ == i.addr@
    &&& s.amount == i.amount
    &&& s.z212 == i.z212
    &&& Some(s.rseed@) == hex_value(i.rseed@)
    &&& Some(s.witness@) == hex_value(i.witness@)
}

/// The spend data of one input. The first field that does not decode, in
/// the order diversifier, rseed, witness, is reported.
pub fn decode_input(i: &TxIn) -> (r: Result<SpendInput, WalletError>)
    ensures
        r is Ok <==> input_decodable(*i),
        r matches Ok(s) ==> decoded_from(s, *i),
        !hex_of_len(i.diversifier@, DIVERSIFIER_LEN as nat) ==> (r matches Err(e) && e matches WalletError::Decode(m) && m@ == i.diversifier@),
        hex_of_len(i.diversifier@, DIVERSIFIER_LEN as nat) && !hex_of_len(i.rseed@, RSEED_LEN as nat) ==> (r matches Err(e) && e matches WalletError::Decode(m) && m@ == i.rseed@),
        hex_of_len(i.diversifier@, DIVERSIFIER_LEN as nat) && hex_of_len(i.rseed@, RSEED_LEN as nat) && hex_value(i.witness@) is None ==> (r matches Err(e) && e matches WalletError::Decode(m) && m@ == i.witness@),
{
    let diversifier = match decode_hex(i.diversifier.as_str()) {
        Some(d) => {
            if d.len() != DIVERSIFIER_LEN {
                return Err(WalletError::Decode(i.diversifier.clone()));
            }
            d
        },
        None => {
            return Err(WalletError::Decode(i.diversifier.clone()));
        },
    };
    let rseed = match decode_hex(i.rseed.as_str()) {
        Some(d) => {
            if d.len() != RSEED_LEN {
                return Err(WalletError::Decode(i.rseed.clone()));
            }
            d
        },
        None => {
            return Err(WalletError::Decode(i.rseed.clone()));
        },
    };
    let witness = match decode_hex(i.witness.as_str()) {
        Some(d) => d,
        None => {
            return Err(WalletError::Decode(i.witness.clone()));
        },
    };
    Ok(SpendInput { diversifier, addr: i.addr.clone(), amount: i.amount, z212: i.z212, rseed, witness })
}

/// The total amount of a sequence of inputs.
pub open spec fn input_total(s: Seq<TxIn>) -> nat
    decreases s.len(),
{
    if s.len() == 0 {
        0
    } else {
        input_total(s.drop_last()) + s.last().amount as nat
    }
}

/// Whether the inputs of `tx` pay for its output and the fee.
pub open spec fn covers_output(tx: Tx) -> bool {
    tx.output matches Some(o) && input_total(tx.inputs@) >= o.amount + DEFAULT_FEE
}

/// The spend data of every input of `tx`, in order. An input that does not
/// decode fails with its `Decode` error; a transaction without an output, or
/// whose inputs do not pay for the output and the fee, is malformed.
pub fn decode_tx(tx: &Tx) -> (r: Result<Vec<SpendInput>, WalletError>)
    ensures
        r is Ok <==> covers_output(*tx) && forall|k: int| 0 <= k < tx.inputs@.len() ==> input_decodable(#[trigger] tx.inputs@[k]),
        r matches Ok(v) ==> v@.len() == tx.inputs@.len() && forall|k: int|
            0 <= k < v@.len() ==> decoded_from(#[trigger] v@[k], tx.inputs@[k]),
        (exists|k: int| 0 <= k < tx.inputs@.len() && !input_decodable(#[trigger] tx.inputs@[k])) ==> (r matches Err(e) && e is Decode),
        !covers_output(*tx) && (forall|k: int| 0 <= k < tx.inputs@.len() ==> input_decodable(#[trigger] tx.inputs@[k])) ==> r == Err::<Vec<SpendInput>, WalletError>(WalletError::TxParse),
{
    let mut out: Vec<SpendInput> = Vec::new();
    let mut total: u128 = 0;
    let mut k: usize = 0;
    while k < tx.inputs.len()
        invariant
            0 <= k <= tx.inputs.len(),
            out@.len() == k,
            total == input_total(tx.inputs@.take(k as int)),
            total <= k * (u64::MAX as int),
            forall|j: int| 0 <= j < k ==> input_decodable(#[trigger] tx.inputs@[j]),
            forall|j: int| 0 <= j < k ==> decoded_from(#[trigger] out@[j], tx.inputs@[j]),
        decreases tx.inputs.len() - k,
    {
        proof {
            assert(tx.inputs@.take(k as int + 1).drop_last() =~= tx.inputs@.take(k as int));
        }
        total = total + tx.inputs[k].amount as u128;
        match decode_input(&tx.inputs[k]) {
            Ok(s) => out.push(s),
            Err(e) => {
                assert(!input_decodable(tx.inputs@[k as int]));
                return Err(e);
            },
        }
        k = k + 1;
    }
    proof {
        assert(tx.inputs@.take(tx.inputs.len() as int) =~= tx.inputs@);
    }
    match &tx.output {
        Some(o) => {
            if total < o.amount as u128 + DEFAULT_FEE as u128 {
                return Err(WalletError::TxParse);
            }
        },
        None => {
            return Err(WalletError::TxParse);
        },
    }
    Ok(out)
}

proof fn lemma_input_total_of_spends(inputs: Seq<TxIn>, notes: Seq<ReceivedNote>)
    requires
        inputs.len() <= notes.len(),
        forall|j: int| 0 <= j < inputs.len() ==> spends(#[trigger] inputs[j], notes[j]),
    ensures
        input_total(inputs) == sum_values(notes.take(inputs.len() as int)),
    decreases inputs.len(),
{
    if inputs.len() > 0 {
        let k = inputs.len() - 1;
        assert forall|j: int| 0 <= j < inputs.drop_last().len() implies spends(#[trigger] inputs.drop_last()[j], notes[j]) by {
            assert(inputs.drop_last()[j] == inputs[j]);
        }
        lemma_input_total_of_spends(inputs.drop_last(), notes);
        assert(notes.take(k + 1).drop_last() =~= notes.take(k));
        assert(spends(inputs[k], notes[k]));
    }
}

/// A transaction prepared for a target equal to the total of the unspent
/// notes has inputs that add up to exactly that total.
pub proof fn lemma_exact_total_inputs(notes: Seq<ReceivedNote>, inputs: Seq<TxIn>)
    requires
        inputs.len() == cover_len(notes, sum_values(notes), 0),
        forall|j: int| 0 <= j < inputs.len() ==> spends(#[trigger] inputs[j], notes[j]),
    ensures
        input_total(inputs) == sum_values(notes),
{
    lemma_cover_len_least(notes, sum_values(notes), 0);
    lemma_input_total_of_spends(inputs, notes);
    lemma_sum_values_monotone(notes, inputs.len() as int, notes.len() as int);
    assert(notes.take(notes.len() as int) =~= notes);
}

/// An input prepared from a note decodes back to that note's diversifier,
/// rseed and witness, with its address, amount and rseed format.
pub proof fn lemma_prepared_input_decodes(i: TxIn, n: ReceivedNote)
    requires
        spends(i, n),
        n.diversifier@.len() == DIVERSIFIER_LEN,
        n.rseed@.len() == RSEED_LEN,
    ensures
        input_decodable(i),
        forall|s: SpendInput| #[trigger] decoded_from(s, i) ==> s.diversifier@ == n.diversifier@
            && s.rseed@ == n.rseed@ && s.witness@ == n.witness@ && s.addr@ == n.addr@ && s.amount
            == n.value && s.z212 == n.z212,
{
    lemma_hex_round_trip(n.diversifier@);
    lemma_hex_round_trip(n.rseed@);
    lemma_hex_round_trip(n.witness@);
}

} // verus!
