//! Display units of amounts, and the wallet's configuration.
use vstd::prelude::*;
use crate::error::WalletError;
use vstd::string::StrSliceExecFns;

verus! {

/// The unit in which amounts are read and shown.
#[derive(Debug, Clone, Copy, PartialEq, Eq)]
pub enum ZECUnit {
    Zat,
    MilliZec,
    Zec,
}

/// How many zatoshis one unit holds.
pub open spec fn unit_factor(u: ZECUnit) -> u64 {
    match u {
        ZECUnit::Zat => 1,
        ZECUnit::MilliZec => 100_000,
        ZECUnit::Zec => 100_000_000,
    }
}

/// The whole number of zatoshis in decimal text `s` read as a multiple of
/// `factor` zatoshis, fractions of a zatoshi dropped; `None` where the text is
/// no decimal number or the result is negative or does not fit in a `u64`.
pub uninterp spec fn scaled_decimal(s: Seq<char>, factor: u64) -> Option<u64>;

/// The decimal text of `amount / factor`.
pub uninterp spec fn ratio_text(amount: u64, factor: u64) -> Seq<char>;

/// Relies on bigdecimal: BigDecimal::from_str parses the text, the product
/// with the factor is exact, and ToPrimitive::to_u64 drops the fraction.
/// The parser's exponent arithmetic can overflow, so text with an exponent
/// marker is left out.
#[verifier::external_body]
fn scale_decimal(amount: &str, factor: u64) -> (r: Option<u64>)
    requires
        !has_exponent(amount@),
    ensures
        r == scaled_decimal(amount@, factor),
{
    match <bigdecimal::BigDecimal as std::str::FromStr>::from_str(amount) {
        Ok(u) => bigdecimal::ToPrimitive::to_u64(&(u * bigdecimal::BigDecimal::from(factor))),
        Err(_) => None,
    }
}

/// Relies on bigdecimal's division of `amount` by `factor` and on its
/// decimal text.
#[verifier::external_body]
fn ratio_decimal(amount: u64, factor: u64) -> (r: String)
    requires
        factor > 0,
    ensures
        r@ == ratio_text(amount, factor),
{
    (bigdecimal::BigDecimal::from(amount) / bigdecimal::BigDecimal::from(factor)).to_string()
}

/// Whether decimal text carries an exponent marker.
pub open spec fn has_exponent(s: Seq<char>) -> bool {
    s.contains('e') || s.contains('E')
}

fn exponent_marker(s: &str) -> (r: bool)
    ensures
        r == has_exponent(s@),
{
    let n = s.unicode_len();
    let mut i: usize = 0;
    while i < n
        invariant
            n == s@.len(),
            0 <= i <= n,
            forall|j: int| 0 <= j < i ==> s@[j] != 'e' && s@[j] != 'E',
        decreases n - i,
    {
        let c = s.get_char(i);
        if c == 'e' || c == 'E' {
            assert(s@[i as int] == c);
            return true;
        }
        i = i + 1;
    }
    false
}

impl ZECUnit {
    /// The unit named `s`: "Zat", "MilliZec" or "Zec".
    pub fn parse(s: &str) -> (r: Option<ZECUnit>)
        ensures
            r == (if s@ == "Zat"@ {
                Some(ZECUnit::Zat)
            } else if s@ == "MilliZec"@ {
                Some(ZECUnit::MilliZec)
            } else if s@ == "Zec"@ {
                Some(ZECUnit::Zec)
            } else {
                None::<ZECUnit>
            }),
    {
        let owned = s.to_owned();
        if owned == "Zat".to_owned() {
            Some(ZECUnit::Zat)
        } else if owned == "MilliZec".to_owned() {
            Some(ZECUnit::MilliZec)
        } else if owned == "Zec".to_owned() {
            Some(ZECUnit::Zec)
        } else {
            None
        }
    }

    /// How many zatoshis one unit holds.
    pub fn factor(&self) -> (r: u64)
        ensures
            r == unit_factor(*self),
    {
        match self {
            ZECUnit::Zat => 1,
            ZECUnit::MilliZec => 100_000,
            ZECUnit::Zec => 100_000_000,
        }
    }

    /// The name under which amounts in this unit are shown.
    pub fn label(&self) -> (r: String)
        ensures
            r@ == (match *self {
                ZECUnit::Zat => "zatoshis"@,
                ZECUnit::MilliZec => "mZEC"@,
                ZECUnit::Zec => "ZEC"@,
            }),
    {
        match self {
            ZECUnit::Zat => "zatoshis".to_owned(),
            ZECUnit::MilliZec => "mZEC".to_owned(),
            ZECUnit::Zec => "ZEC".to_owned(),
        }
    }

    /// The amount in zatoshis that the decimal text `amount` stands for in
    /// this unit. Amounts are written without an exponent.
    pub fn to_satoshis(&self, amount: &str) -> (r: Result<u64, WalletError>)
        ensures
            !has_exponent(amount@) && scaled_decimal(amount@, unit_factor(*self)) is Some ==> r
                == Ok::<u64, WalletError>(scaled_decimal(amount@, unit_factor(*self))->Some_0),
            has_exponent(amount@) || scaled_decimal(amount@, unit_factor(*self)) is None ==> (r matches Err(e) && e matches WalletError::Decode(m) && m@ == amount@),
    {
        if exponent_marker(amount) {
            return Err(WalletError::Decode(amount.to_owned()));
        }
        match scale_decimal(amount, self.factor()) {
            Some(v) => Ok(v),
            None => Err(WalletError::Decode(amount.to_owned())),
        }
    }

    /// The decimal text of `amount` zatoshis in this unit.
    pub fn from_satoshis(&self, amount: u64) -> (r: String)
        ensures
            r@ == ratio_text(amount, unit_factor(*self)),
    {
        ratio_decimal(amount, self.factor())
    }
}

/// The indexer to talk to when none is given.
pub const LIGHTNODE_URL: &'static str = "https://testnet.lightwalletd.com:9067";

/// The configuration threaded through every operation.
#[derive(Debug, Clone, PartialEq, Eq)]
pub struct Opt {
    pub lightnode_url: String,
    pub unit: ZECUnit,
}

impl Opt {
    /// The default indexer, amounts in ZEC.
    pub fn default() -> (r: Opt)
        ensures
            r.lightnode_url@ == LIGHTNODE_URL@,
            r.unit == ZECUnit::Zec,
    {
        Opt { lightnode_url: LIGHTNODE_URL.to_owned(), unit: ZECUnit::Zec }
    }
}

} // verus!
