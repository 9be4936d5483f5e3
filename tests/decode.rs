use zcash_coldwallet::error::WalletError;
use zcash_coldwallet::sign::{decode_input, decode_tx, SpendInput};
use zcash_coldwallet::transact::{prepare_tx, Recipient};
use zcash_coldwallet::tx::{ReceivedNote, Tx, TxIn, TxOut};

fn note(id: u64) -> ReceivedNote {
    ReceivedNote {
        id,
        diversifier: (0..11u8).collect(),
        addr: format!("zaddr{}", id),
        value: 10_000 * id,
        z212: id == 1,
        rseed: (100..132u8).collect(),
        witness: vec![0xde, 0xad, id as u8],
        spent: false,
    }
}

fn input(diversifier: &str, rseed: &str, witness: &str) -> TxIn {
    TxIn {
        diversifier: diversifier.to_string(),
        addr: "z".to_string(),
        amount: 5,
        z212: false,
        rseed: rseed.to_string(),
        witness: witness.to_string(),
    }
}

#[test]
fn prepared_tx_decodes_back_to_notes() {
    let notes = vec![note(1), note(2)];
    let tx = prepare_tx(&notes, &Recipient::Shielded("zd".to_string()), 25_000, 77, &[9; 32]).unwrap();
    let spends = decode_tx(&tx).unwrap();
    assert_eq!(spends.len(), 2);
    for (s, n) in spends.iter().zip(notes.iter()) {
        assert_eq!(
            s,
            &SpendInput {
                diversifier: n.diversifier.clone(),
                addr: n.addr.clone(),
                amount: n.value,
                z212: n.z212,
                rseed: n.rseed.clone(),
                witness: n.witness.clone(),
            }
        );
    }
}

#[test]
fn decode_input_accepts_either_case() {
    let i = input(&"Ab".repeat(11), &"0F".repeat(32), "");
    let s = decode_input(&i).unwrap();
    assert_eq!(s.diversifier, vec![0xab; 11]);
    assert_eq!(s.rseed, vec![0x0f; 32]);
    assert!(s.witness.is_empty());
}

#[test]
fn decode_input_reports_first_bad_field() {
    let good_d = "00".repeat(11);
    let good_r = "11".repeat(32);
    assert_eq!(decode_input(&input("0011", &good_r, "")), Err(WalletError::Decode("0011".to_string())));
    assert_eq!(decode_input(&input(&good_d, "xyz", "zz")), Err(WalletError::Decode("xyz".to_string())));
    assert_eq!(decode_input(&input(&good_d, &"11".repeat(31), "")), Err(WalletError::Decode("11".repeat(31))));
    assert_eq!(decode_input(&input(&good_d, &good_r, "abc")), Err(WalletError::Decode("abc".to_string())));
}

#[test]
fn decode_tx_needs_an_output() {
    let tx = Tx { height: 1, inputs: vec![input(&"00".repeat(11), &"11".repeat(32), "")], output: None };
    assert_eq!(decode_tx(&tx), Err(WalletError::TxParse));
    let bad = Tx { height: 1, inputs: vec![input("0", "", "")], output: None };
    assert_eq!(decode_tx(&bad), Err(WalletError::Decode("0".to_string())));
    let empty = Tx { height: 1, inputs: vec![], output: Some(TxOut { addr: "z".to_string(), amount: 0, ovk: String::new() }) };
    assert_eq!(decode_tx(&empty), Err(WalletError::TxParse));
}

#[test]
fn decode_tx_needs_inputs_to_cover_output_and_fee() {
    let mut i = input(&"00".repeat(11), &"11".repeat(32), "");
    i.amount = 1500;
    let out = |amount: u64| Some(TxOut { addr: "z".to_string(), amount, ovk: String::new() });
    let exact = Tx { height: 1, inputs: vec![i.clone()], output: out(500) };
    assert_eq!(decode_tx(&exact).unwrap().len(), 1);
    let short = Tx { height: 1, inputs: vec![i], output: out(501) };
    assert_eq!(decode_tx(&short), Err(WalletError::TxParse));
}
