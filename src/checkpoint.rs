//! Checkpoints that bootstrap an account, and the search for the height at
//! which a given day starts.
use vstd::prelude::*;
use crate::error::WalletError;
use crate::hexcodec::{decode_hex, encode_hex, hex_of, hex_value, lemma_hex_round_trip};

verus! {

/// A trusted starting point: height, block hash (internal byte order), block
/// time and the serialized commitment tree state.
#[derive(Debug, Clone, PartialEq, Eq)]
pub struct Checkpoint {
    pub height: u64,
    pub hash: Vec<u8>,
    pub time: u32,
    pub sapling_tree: String,
}

/// The height at which shielded (Sapling) transactions activate on the
/// network; no account starts earlier.
pub const SAPLING_ACTIVATION_HEIGHT: u64 = 280_000;

/// The height an account is bootstrapped from: the requested height, but
/// never before activation.
pub fn account_birth_height(requested: u64) -> (r: u64)
    ensures
        r == vstd::math::max(requested as int, SAPLING_ACTIVATION_HEIGHT as int),
{
    if requested < SAPLING_ACTIVATION_HEIGHT {
        SAPLING_ACTIVATION_HEIGHT
    } else {
        requested
    }
}

/// `s` back to front.
pub open spec fn reversed(s: Seq<u8>) -> Seq<u8> {
    Seq::new(s.len(), |i: int| s[s.len() - 1 - i])
}

fn reverse_bytes(b: &Vec<u8>) -> (r: Vec<u8>)
    ensures
        r@ == reversed(b@),
{
    let mut out: Vec<u8> = Vec::new();
    let mut i: usize = b.len();
    while i > 0
        invariant
            0 <= i <= b.len(),
            out@.len() == b.len() - i,
            forall|j: int| 0 <= j < out@.len() ==> out@[j] == b@[b.len() - 1 - j],
        decreases i,
    {
        i = i - 1;
        out.push(b[i]);
    }
    assert(out@ =~= reversed(b@));
    out
}

/// The checkpoint given by the tree state that the indexer sends for a
/// height: the hash comes in hex, in wire order, the reverse of the internal
/// order.
pub fn find_checkpoint(height: u64, hash_hex: &str, time: u32, tree: String) -> (r: Result<Checkpoint, WalletError>)
    ensures
        r is Ok <==> hex_value(hash_hex@) is Some,
        r matches Err(e) ==> (e matches WalletError::Decode(m) && m@ == hash_hex@),
        r matches Ok(c) ==> c.height == height && c.time == time && c.sapling_tree == tree
            && c.hash@ == reversed(hex_value(hash_hex@)->Some_0),
{
    match decode_hex(hash_hex) {
        Some(wire) => {
            let hash = reverse_bytes(&wire);
            Ok(Checkpoint { height, hash, time, sapling_tree: tree })
        },
        None => Err(WalletError::Decode(hash_hex.to_string())),
    }
}

impl Checkpoint {
    /// The hash as hex in wire order, as the indexer writes it.
    pub fn wire_hash(&self) -> (r: String)
        ensures
            r@ == hex_of(reversed(self.hash@)),
    {
        let wire = reverse_bytes(&self.hash);
        encode_hex(wire.as_slice())
    }
}

/// Reading back the wire form of a checkpoint's hash gives the same hash.
pub proof fn lemma_wire_hash_round_trip(hash: Seq<u8>)
    ensures
        hex_value(hex_of(reversed(hash))) is Some,
        reversed(hex_value(hex_of(reversed(hash)))->Some_0) == hash,
{
    lemma_hex_round_trip(reversed(hash));
    assert(reversed(reversed(hash)) =~= hash);
}

/// Whether `y` is a leap year of the proleptic Gregorian calendar.
pub open spec fn is_leap(y: int) -> bool {
    y % 4 == 0 && (y % 100 != 0 || y % 400 == 0)
}

pub open spec fn days_in_month(y: int, m: int) -> int {
    if m == 2 {
        if is_leap(y) { 29 } else { 28 }
    } else if m == 4 || m == 6 || m == 9 || m == 11 {
        30
    } else {
        31
    }
}

/// A calendar date that chrono can represent.
pub open spec fn valid_date(y: int, m: int, d: int) -> bool {
    &&& -262143 <= y <= 262142
    &&& 1 <= m <= 12
    &&& 1 <= d <= days_in_month(y, m)
}

/// Days from 1970-01-01 to the given date of the proleptic Gregorian calendar.
pub open spec fn days_from_civil(y: int, m: int, d: int) -> int {
    let yy = if m <= 2 { y - 1 } else { y };
    let era = yy / 400;
    let yoe = yy - era * 400;
    let doy = (153 * (if m > 2 { m - 3 } else { m + 9 }) + 2) / 5 + d - 1;
    let doe = yoe * 365 + yoe / 4 - yoe / 100 + doy;
    era * 146097 + doe - 719468
}

/// Relies on chrono's NaiveDate::from_ymd_opt, which accepts exactly the
/// valid dates, and on the UTC timestamp of that date's midnight.
#[verifier::external_body]
fn midnight_timestamp(year: i32, month: u32, day: u32) -> (r: Option<i64>)
    ensures
        r is Some <==> valid_date(year as int, month as int, day as int),
        r matches Some(t) ==> t == days_from_civil(year as int, month as int, day as int) * 86400,
{
    match chrono::NaiveDate::from_ymd_opt(year, month, day) {
        Some(d) => Some(d.and_time(chrono::NaiveTime::MIN).and_utc().timestamp()),
        None => None,
    }
}

/// The block timestamp of midnight UTC at the start of a day. A date that
/// does not exist, or whose midnight falls outside the range of block
/// timestamps, is refused.
pub fn day_start_timestamp(year: i32, month: u32, day: u32) -> (r: Result<u32, WalletError>)
    ensures
        r is Ok <==> valid_date(year as int, month as int, day as int) && 0 <= days_from_civil(
            year as int,
            month as int,
            day as int,
        ) * 86400 <= u32::MAX,
        r matches Ok(t) ==> t == days_from_civil(year as int, month as int, day as int) * 86400,
        r is Err ==> r == Err::<u32, WalletError>(WalletError::InvalidDate(year, month, day)),
{
    match midnight_timestamp(year, month, day) {
        Some(t) => {
            if t < 0 || t > u32::MAX as i64 {
                Err(WalletError::InvalidDate(year, month, day))
            } else {
                Ok(t as u32)
            }
        },
        None => Err(WalletError::InvalidDate(year, month, day)),
    }
}

/// What the height search does next.
#[derive(Debug, Clone, Copy, PartialEq, Eq)]
pub enum SearchStep {
    /// Fetch the block at this height and report its time.
    Probe(u64),
    /// The search is over: start from this height.
    Done(u64),
}

/// A binary search over block heights for the block whose time is a target
/// timestamp. Block times are only roughly ordered, so the result is a height
/// near the target, from which it is safe to scan.
#[derive(Debug, Clone, Copy, PartialEq, Eq)]
pub struct HeightSearch {
    pub low: u64,
    pub high: u64,
    pub timestamp: u32,
    pub found: Option<u64>,
}

/// The middle of the bounds, rounded down.
pub open spec fn mid_of(low: u64, high: u64) -> u64 {
    ((low + high) / 2) as u64
}

/// The search after the block at the probe, of height `block_height` and
/// time `block_time`, was taken in.
pub open spec fn observed(s: HeightSearch, block_height: u64, block_time: u32) -> HeightSearch {
    let mid = mid_of(s.low, s.high);
    if s.timestamp < block_time {
        HeightSearch { high: if mid == 0 { 0 } else { (mid - 1) as u64 }, ..s }
    } else if s.timestamp > block_time {
        HeightSearch { low: (mid + 1) as u64, ..s }
    } else {
        HeightSearch { found: Some(block_height), ..s }
    }
}

/// How many heights are still open, for a search still probing.
pub open spec fn open_heights(s: HeightSearch) -> nat {
    if s.found is None && s.low < s.high {
        (s.high - s.low + 1) as nat
    } else {
        0
    }
}

/// Where a search ends against the block times `times` (`times[h]` the time
/// of block `h`), and how many blocks it probes on the way.
pub open spec fn search_outcome(times: Seq<u32>, s: HeightSearch) -> (u64, nat)
    decreases open_heights(s),
{
    match s.found {
        Some(h) => (h, 0),
        None => {
            if s.low >= s.high {
                (s.high, 0)
            } else {
                let mid = mid_of(s.low, s.high);
                let next = observed(s, mid, times[mid as int]);
                if open_heights(next) < open_heights(s) {
                    (search_outcome(times, next).0, search_outcome(times, next).1 + 1)
                } else {
                    (s.high, 0)
                }
            }
        },
    }
}

proof fn lemma_observed_narrows(s: HeightSearch, block_height: u64, block_time: u32)
    requires
        s.found is None,
        s.low < s.high,
    ensures
        open_heights(observed(s, block_height, block_time)) < open_heights(s),
        observed(s, block_height, block_time).found is None ==> width(
            observed(s, block_height, block_time),
        ) <= width(s) / 2,
{
}

/// The number of heights between the bounds.
pub open spec fn width(s: HeightSearch) -> nat {
    if s.high + 1 >= s.low {
        (s.high + 1 - s.low) as nat
    } else {
        0
    }
}

/// The base-two logarithm of `n`, rounded down (zero for zero).
pub open spec fn log2_floor(n: nat) -> nat
    decreases n,
{
    if n <= 1 {
        0
    } else {
        1 + log2_floor(n / 2)
    }
}

proof fn lemma_log2_monotone(a: nat, b: nat)
    requires
        a <= b,
    ensures
        log2_floor(a) <= log2_floor(b),
    decreases b,
{
    if a > 1 {
        lemma_log2_monotone(a / 2, b / 2);
    }
}

/// A search probes at most log2(n) blocks, rounded down, where `n` is the
/// number of heights between its bounds.
pub proof fn lemma_search_probes(times: Seq<u32>, s: HeightSearch)
    ensures
        search_outcome(times, s).1 <= log2_floor(width(s)),
    decreases open_heights(s),
{
    if s.found is None && s.low < s.high {
        let mid = mid_of(s.low, s.high);
        let next = observed(s, mid, times[mid as int]);
        lemma_observed_narrows(s, mid, times[mid as int]);
        lemma_search_probes(times, next);
        if next.found is None {
            lemma_log2_monotone(width(next), width(s) / 2);
        }
    }
}

impl HeightSearch {
    /// A search between `low` (the activation height) and `high` (the tip).
    pub fn new(low: u64, high: u64, timestamp: u32) -> (r: HeightSearch)
        ensures
            r == (HeightSearch { low, high, timestamp, found: None }),
    {
        HeightSearch { low, high, timestamp, found: None }
    }

    /// The next step: done when a block matched or the bounds met or
    /// crossed, else a probe of the middle height.
    pub fn step(&self) -> (r: SearchStep)
        ensures
            self.found matches Some(h) ==> r == SearchStep::Done(h),
            self.found is None && self.low >= self.high ==> r == SearchStep::Done(self.high),
            self.found is None && self.low < self.high ==> r == SearchStep::Probe(
                mid_of(self.low, self.high),
            ),
    {
        match self.found {
            Some(h) => SearchStep::Done(h),
            None => {
                if self.low >= self.high {
                    SearchStep::Done(self.high)
                } else {
                    SearchStep::Probe(self.low + (self.high - self.low) / 2)
                }
            },
        }
    }

    /// Takes in the block fetched for the probe: a later block lowers the
    /// upper bound below the probe, an earlier one raises the lower bound
    /// above it, and a block at the target ends the search at its height.
    pub fn observe(&mut self, block_height: u64, block_time: u32)
        requires
            old(self).found is None,
            old(self).low < old(self).high,
        ensures
            *final(self) == observed(*old(self), block_height, block_time),
    {
        let mid = self.low + (self.high - self.low) / 2;
        if self.timestamp < block_time {
            self.high = if mid == 0 { 0 } else { mid - 1 };
        } else if self.timestamp > block_time {
            self.low = mid + 1;
        } else {
            self.found = Some(block_height);
        }
    }
}

/// Block times that strictly increase over the heights `low..=high`.
pub open spec fn increasing_on(times: Seq<u32>, low: int, high: int) -> bool {
    forall|i: int, j: int| low <= i < j <= high ==> times[i] < times[j]
}

/// Runs the height search against known block times, `times[h]` being the
/// time of block `h`, between `low` and `high`. Block times need not be
/// ordered: the result is where the search's rules lead on these times.
/// Where they increase strictly between the bounds, every earlier height is
/// before the target and every later one after it.
pub fn find_height(times: &Vec<u32>, low: u64, high: u64, timestamp: u32) -> (r: u64)
    requires
        high < times.len(),
    ensures
        r == search_outcome(times@, HeightSearch { low, high, timestamp, found: None }).0,
        low < high && times@[mid_of(low, high) as int] == timestamp ==> r == mid_of(low, high),
        low <= high ==> low - 1 <= r <= high,
        low > high ==> r == high,
        increasing_on(times@, low as int, high as int) ==> forall|h: int|
            low <= h <= high ==> (h < r ==> times@[h] < timestamp) && (h > r ==> times@[h]
                > timestamp),
        forall|h: int|
            increasing_on(times@, low as int, high as int) && low <= h <= high && times@[h]
                == timestamp ==> r == h,
{
    let mut s = HeightSearch::new(low, high, timestamp);
    let ghost start = s;
    proof {
        let mid = mid_of(low, high);
        if low < high && times@[mid as int] == timestamp {
            let next = observed(start, mid, timestamp);
            assert(next.found == Some(mid));
            lemma_observed_narrows(start, mid, timestamp);
            assert(search_outcome(times@, next).0 == mid);
            assert(search_outcome(times@, start).0 == mid);
        }
    }
    loop
        invariant
            s.timestamp == timestamp,
            high < times.len(),
            s.high <= high,
            s.found is None,
            low <= s.low,
            low <= high ==> low <= s.high + 1,
            low > high ==> s == start,
            start == (HeightSearch { low, high, timestamp, found: None }),
            search_outcome(times@, s).0 == search_outcome(times@, start).0,
            low < high && times@[mid_of(low, high) as int] == timestamp ==> search_outcome(
                times@,
                start,
            ).0 == mid_of(low, high),
            increasing_on(times@, low as int, high as int) ==> forall|h: int|
                low <= h <= high ==> (h < s.low ==> times@[h] < timestamp) && (h > s.high
                    ==> times@[h] > timestamp),
        decreases s.high + 1 - s.low,
    {
        match s.step() {
            SearchStep::Done(h) => {
                return h;
            },
            SearchStep::Probe(mid) => {
                assert(s.low <= mid <= s.high);
                assert(mid < times.len());
                let t = times[mid as usize];
                let ghost before = s;
                proof {
                    lemma_observed_narrows(before, mid, t);
                }
                s.observe(mid, t);
                proof {
                    assert(t == times@[mid as int]);
                    assert(search_outcome(times@, before) == (
                        search_outcome(times@, s).0,
                        search_outcome(times@, s).1 + 1,
                    ));
                    if increasing_on(times@, low as int, high as int) {
                        assert forall|h: int|
                            low <= h <= high implies (h < s.low ==> times@[h] < timestamp) && (h
                                > s.high ==> times@[h] > timestamp) by {
                            if h < mid {
                                assert(times@[h] < times@[mid as int]);
                            } else if h > mid {
                                assert(times@[mid as int] < times@[h]);
                            }
                        }
                    }
                }
                if let Some(h) = s.found {
                    proof {
                        if increasing_on(times@, low as int, high as int) {
                            assert forall|g: int| low <= g <= high implies (g < h ==> times@[g]
                                < timestamp) && (g > h ==> times@[g] > timestamp) by {
                                if g < mid {
                                    assert(times@[g] < times@[mid as int]);
                                } else if g > mid {
                                    assert(times@[mid as int] < times@[g]);
                                }
                            }
                        }
                    }
                    return h;
                }
            },
        }
    }
}

} // verus!
