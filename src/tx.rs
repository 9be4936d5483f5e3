//! The unsigned transaction descriptor exchanged between the online and the
//! offline device, and the note records it is built from.
use vstd::prelude::*;

verus! {

/// A note to spend, with everything needed to rebuild it offline.
#[derive(Debug, Clone, PartialEq, Eq)]
pub struct TxIn {
    pub diversifier: String,
    pub addr: String,
    pub amount: u64,
    pub z212: bool,
    pub rseed: String,
    pub witness: String,
}

/// The single shielded output of a transaction.
#[derive(Debug, Clone, PartialEq, Eq)]
pub struct TxOut {
    pub addr: String,
    pub amount: u64,
    pub ovk: String,
}

/// An unsigned transaction: target height, inputs and at most one output.
#[derive(Debug, Clone, PartialEq, Eq)]
pub struct Tx {
    pub height: i64,
    pub inputs: Vec<TxIn>,
    pub output: Option<TxOut>,
}

/// A received note as the note index holds it.
#[derive(Debug, Clone, PartialEq, Eq)]
pub struct ReceivedNote {
    pub id: u64,
    pub diversifier: Vec<u8>,
    /// The encoded payment address the note was received at.
    pub addr: String,
    pub value: u64,
    /// Whether the note's rseed has the post-ZIP-212 format.
    pub z212: bool,
    pub rseed: Vec<u8>,
    /// The serialized incremental merkle witness of the note.
    pub witness: Vec<u8>,
    pub spent: bool,
}

/// A received note as plain values.
pub struct NoteView {
    pub id: u64,
    pub diversifier: Seq<u8>,
    pub addr: Seq<char>,
    pub value: u64,
    pub z212: bool,
    pub rseed: Seq<u8>,
    pub witness: Seq<u8>,
    pub spent: bool,
}

impl ReceivedNote {
    pub open spec fn view(&self) -> NoteView {
        NoteView {
            id: self.id,
            diversifier: self.diversifier@,
            addr: self.addr@,
            value: self.value,
            z212: self.z212,
            rseed: self.rseed@,
            witness: self.witness@,
            spent: self.spent,
        }
    }

    /// A copy of the note with its spend status set to `spent`.
    pub fn copy_with_spent(&self, spent: bool) -> (r: ReceivedNote)
        ensures
            r@ == (NoteView { spent, ..self@ }),
    {
        let r = ReceivedNote {
            id: self.id,
            diversifier: self.diversifier.clone(),
            addr: self.addr.clone(),
            value: self.value,
            z212: self.z212,
            rseed: self.rseed.clone(),
            witness: self.witness.clone(),
            spent,
        };
        assert(r.diversifier@ =~= self.diversifier@);
        assert(r.rseed@ =~= self.rseed@);
        assert(r.witness@ =~= self.witness@);
        r
    }
}

/// Total value of a sequence of notes.
pub open spec fn sum_values(s: Seq<ReceivedNote>) -> nat
    decreases s.len(),
{
    if s.len() == 0 {
        0
    } else {
        sum_values(s.drop_last()) + s.last().value as nat
    }
}

pub proof fn lemma_sum_values_take(s: Seq<ReceivedNote>, i: int)
    requires
        0 <= i < s.len(),
    ensures
        sum_values(s.take(i + 1)) == sum_values(s.take(i)) + s[i].value,
{
    assert(s.take(i + 1).drop_last() =~= s.take(i));
}

pub proof fn lemma_sum_values_monotone(s: Seq<ReceivedNote>, i: int, j: int)
    requires
        0 <= i <= j <= s.len(),
    ensures
        sum_values(s.take(i)) <= sum_values(s.take(j)),
    decreases j - i,
{
    if i < j {
        lemma_sum_values_take(s, j - 1);
        lemma_sum_values_monotone(s, i, j - 1);
    }
}

} // verus!
