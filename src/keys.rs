//! Keys of an account and the kind of an encoded key.
use vstd::prelude::*;

verus! {

/// A freshly generated account: its seed phrase, derivation path and the
/// encoded keys and default address.
#[derive(Debug, Clone, PartialEq, Eq)]
pub struct Keys {
    pub phrase: String,
    pub derivation_path: String,
    pub spending_key: String,
    pub viewing_key: String,
    pub address: String,
}

/// The kind of an encoded key.
#[allow(non_camel_case_types)]
#[derive(Debug, Clone, Copy, PartialEq, Eq)]
pub enum KeyType {
    VIEWING_KEY,
    SECRET_KEY,
    UNKNOWN,
}

/// Whether a decoding attempt produced a key.
pub fn valid_key<T, E>(s: Result<Option<T>, E>) -> (r: bool)
    ensures
        r == (s matches Ok(Some(_))),
{
    match s {
        Err(_) => false,
        Ok(None) => false,
        _ => true,
    }
}

/// The kind of a key, given the attempts to decode it as a viewing key and
/// as a spending key: a viewing key wins over a spending key.
pub fn get_key_type<T, E, U, F>(as_viewing: Result<Option<T>, E>, as_spending: Result<Option<U>, F>) -> (r: KeyType)
    ensures
        (as_viewing matches Ok(Some(_))) ==> r == KeyType::VIEWING_KEY,
        !(as_viewing matches Ok(Some(_))) && (as_spending matches Ok(Some(_))) ==> r
            == KeyType::SECRET_KEY,
        !(as_viewing matches Ok(Some(_))) && !(as_spending matches Ok(Some(_))) ==> r
            == KeyType::UNKNOWN,
{
    if valid_key(as_viewing) {
        return KeyType::VIEWING_KEY;
    }
    if valid_key(as_spending) {
        return KeyType::SECRET_KEY;
    }
    KeyType::UNKNOWN
}

} // verus!
