//! Chain sync planning, the compact-block cache and scanning into the note
//! index.
use vstd::prelude::*;
use crate::error::WalletError;
use crate::tx::{NoteView, ReceivedNote};

verus! {

/// The reorganisation safety margin: blocks this close to the tip are not
/// fetched yet.
pub const MAX_REORG_DEPTH: u64 = 10;

/// Where a sync starts: one past the highest cached block when the cache is
/// not empty, else the note index's last scanned height. With neither, the
/// account was never bootstrapped.
pub fn sync_start_height(cache_max: Option<u32>, index_height: Option<u32>) -> (r: Result<u64, WalletError>)
    ensures
        cache_max matches Some(c) ==> r == Ok::<u64, WalletError>((c + 1) as u64),
        cache_max is None && index_height is Some ==> r == Ok::<u64, WalletError>(index_height->Some_0 as u64),
        cache_max is None && index_height is None ==> r == Err::<u64, WalletError>(
            WalletError::AccountNotInitialized,
        ),
{
    match cache_max {
        Some(c) => Ok(c as u64 + 1),
        None => match index_height {
            Some(h) => Ok(h as u64),
            None => Err(WalletError::AccountNotInitialized),
        },
    }
}

/// The range of one sync: from `start` to the lower of the tip less the
/// margin and `start` plus `max_blocks`.
#[derive(Debug, Clone, Copy, PartialEq, Eq)]
pub struct SyncPlan {
    pub start: u64,
    pub end: u64,
}

impl SyncPlan {
    /// Plans a sync from `start` given the chain tip, the reorganisation
    /// margin and the most blocks to fetch. A zero margin is refused.
    pub fn new(start: u64, tip: u64, margin: u64, max_blocks: u32) -> (r: Result<SyncPlan, WalletError>)
        ensures
            margin == 0 ==> r == Err::<SyncPlan, WalletError>(WalletError::ZeroReorgMargin),
            margin > 0 ==> (r matches Ok(p) && p.start == start && p.end == vstd::math::min(
                if tip >= margin { tip - margin } else { 0 },
                vstd::math::min(start + max_blocks, u64::MAX as int),
            )),
    {
        if margin == 0 {
            return Err(WalletError::ZeroReorgMargin);
        }
        let safe_tip = tip.saturating_sub(margin);
        let bound = start.saturating_add(max_blocks as u64);
        let end = if safe_tip < bound { safe_tip } else { bound };
        Ok(SyncPlan { start, end })
    }

    /// How many blocks the sync reports: the end less the start, or zero.
    pub fn blocks_synced(&self) -> (r: u64)
        ensures
            r == (if self.end >= self.start { self.end - self.start } else { 0 }),
    {
        self.end.saturating_sub(self.start)
    }
}

/// The cache of raw compact blocks: consecutive heights from `first`, one
/// payload per height.
#[derive(Debug, Clone, PartialEq, Eq)]
pub struct BlockCache {
    pub first: u32,
    pub blocks: Vec<Vec<u8>>,
}

impl BlockCache {
    /// The heights fit in a `u32`.
    pub open spec fn wf(&self) -> bool {
        self.first + self.blocks@.len() <= u32::MAX as int + 1
    }

    /// The cached payloads by height.
    pub open spec fn view_map(&self) -> Map<int, Seq<u8>> {
        Map::new(
            |h: int| self.first <= h < self.first + self.blocks@.len(),
            |h: int| self.blocks@[h - self.first]@,
        )
    }

    pub fn new() -> (r: BlockCache)
        ensures
            r.wf(),
            r.blocks@.len() == 0,
    {
        BlockCache { first: 0, blocks: Vec::new() }
    }

    /// The highest cached height, if any block is cached.
    pub fn max_height(&self) -> (r: Option<u32>)
        requires
            self.wf(),
        ensures
            self.blocks@.len() == 0 ==> r is None,
            self.blocks@.len() > 0 ==> r == Some((self.first + self.blocks@.len() - 1) as u32),
    {
        if self.blocks.len() == 0 {
            None
        } else {
            Some(self.first + (self.blocks.len() - 1) as u32)
        }
    }

    /// Stores the block at `height`: it extends the cache by one block, or
    /// replaces the payload of a height already cached. A height that would
    /// leave a gap is refused and the cache stays as it was.
    pub fn insert(&mut self, height: u32, data: Vec<u8>) -> (r: Result<(), WalletError>)
        requires
            old(self).wf(),
        ensures
            final(self).wf(),
            r is Ok <==> (old(self).blocks@.len() == 0 || old(self).first <= height <= old(
                self,
            ).first + old(self).blocks@.len()),
            r is Ok ==> final(self).view_map() == old(self).view_map().insert(height as int, data@),
            r is Err ==> *final(self) == *old(self),
    {
        let n = self.blocks.len();
        if n == 0 {
            self.first = height;
            self.blocks.push(data);
            proof {
                assert(final(self).view_map() =~= old(self).view_map().insert(height as int, data@));
            }
            return Ok(());
        }
        if height < self.first || (height - self.first) as usize > n {
            return Err(WalletError::TxParse);
        }
        let i = (height - self.first) as usize;
        if i == n {
            self.blocks.push(data);
        } else {
            self.blocks.set(i, data);
        }
        proof {
            assert(final(self).view_map() =~= old(self).view_map().insert(height as int, data@));
        }
        Ok(())
    }
}

/// What the note scanner found in one cached block: the notes received and
/// the ids of the notes spent.
#[derive(Debug, Clone, PartialEq, Eq)]
pub struct ScannedBlock {
    pub height: u32,
    pub received: Vec<ReceivedNote>,
    pub spent: Vec<u64>,
}

/// The wallet's notes and the last height scanned into them.
#[derive(Debug, Clone, PartialEq, Eq)]
pub struct NoteIndex {
    pub height: u32,
    pub notes: Vec<ReceivedNote>,
}

/// The views of a sequence of notes.
pub open spec fn views(s: Seq<ReceivedNote>) -> Seq<NoteView> {
    s.map_values(|n: ReceivedNote| n@)
}

/// Note `n` with its spend status updated by the ids spent in a block.
pub open spec fn marked(n: NoteView, spent: Seq<u64>) -> NoteView {
    NoteView { spent: n.spent || spent.contains(n.id), ..n }
}

/// The notes after one block: earlier notes marked, then the new ones.
pub open spec fn notes_after(notes: Seq<NoteView>, b: ScannedBlock) -> Seq<NoteView> {
    notes.map_values(|n: NoteView| marked(n, b.spent@)) + views(b.received@)
}

/// One block applied to an index of height `h` with notes `notes`: a block
/// at or below `h` was scanned already and changes nothing; the next height
/// is applied; a later one leaves a gap.
pub open spec fn scan_step(idx: (u32, Seq<NoteView>), b: ScannedBlock) -> Result<(u32, Seq<NoteView>), WalletError> {
    if b.height <= idx.0 {
        Ok(idx)
    } else if b.height == idx.0 + 1 {
        Ok((b.height, notes_after(idx.1, b)))
    } else {
        Err(WalletError::TxParse)
    }
}

/// The index after scanning `blocks` in order.
pub open spec fn scan_all(idx: (u32, Seq<NoteView>), blocks: Seq<ScannedBlock>) -> Result<(u32, Seq<NoteView>), WalletError>
    decreases blocks.len(),
{
    if blocks.len() == 0 {
        Ok(idx)
    } else {
        match scan_all(idx, blocks.drop_last()) {
            Ok(i) => scan_step(i, blocks.last()),
            Err(e) => Err(e),
        }
    }
}

impl NoteIndex {
    pub open spec fn model(&self) -> (u32, Seq<NoteView>) {
        (self.height, views(self.notes@))
    }

    /// Scans `blocks` into the index, in order. Blocks already scanned are
    /// skipped; a gap after the index's height stops the scan with an error,
    /// and the index is then left as it was.
    pub fn scan(&mut self, blocks: &Vec<ScannedBlock>) -> (r: Result<(), WalletError>)
        ensures
            r is Ok <==> scan_all(old(self).model(), blocks@) is Ok,
            r is Ok ==> scan_all(old(self).model(), blocks@) == Ok::<
                (u32, Seq<NoteView>),
                WalletError,
            >(final(self).model()),
            r is Err ==> *final(self) == *old(self),
    {
        let mut height = self.height;
        let mut notes = copy_notes(&self.notes);
        let mut i: usize = 0;
        while i < blocks.len()
            invariant
                0 <= i <= blocks.len(),
                *self == *old(self),
                scan_all(old(self).model(), blocks@.take(i as int)) == Ok::<
                    (u32, Seq<NoteView>),
                    WalletError,
                >((height, views(notes@))),
            decreases blocks.len() - i,
        {
            let b = &blocks[i];
            proof {
                assert(blocks@.take(i as int + 1).drop_last() =~= blocks@.take(i as int));
            }
            if b.height > height {
                if b.height - 1 != height {
                    proof {
                        lemma_scan_err_stays(old(self).model(), blocks@, i as int + 1);
                        assert(blocks@.take(blocks.len() as int) =~= blocks@);
                    }
                    return Err(WalletError::TxParse);
                }
                notes = apply_block(&notes, b);
                height = b.height;
            }
            i = i + 1;
        }
        proof {
            assert(blocks@.take(blocks.len() as int) =~= blocks@);
        }
        self.height = height;
        self.notes = notes;
        Ok(())
    }

    /// The total of the notes not yet spent.
    pub fn get_balance(&self) -> (r: u128)
        ensures
            r == unspent_total(self.notes@),
    {
        let mut total: u128 = 0;
        let mut i: usize = 0;
        while i < self.notes.len()
            invariant
                0 <= i <= self.notes.len(),
                total == unspent_total(self.notes@.take(i as int)),
                total <= i * (u64::MAX as int),
            decreases self.notes.len() - i,
        {
            proof {
                assert(self.notes@.take(i as int + 1).drop_last() =~= self.notes@.take(i as int));
            }
            if !self.notes[i].spent {
                total = total + self.notes[i].value as u128;
            }
            i = i + 1;
        }
        proof {
            assert(self.notes@.take(self.notes.len() as int) =~= self.notes@);
        }
        total
    }

    /// The notes not yet spent, in index order.
    pub fn spendable_notes(&self) -> (r: Vec<ReceivedNote>)
        ensures
            views(r@) == views(self.notes@).filter(|n: NoteView| !n.spent),
    {
        let mut out: Vec<ReceivedNote> = Vec::new();
        let mut i: usize = 0;
        while i < self.notes.len()
            invariant
                0 <= i <= self.notes.len(),
                views(out@) == views(self.notes@.take(i as int)).filter(|n: NoteView| !n.spent),
            decreases self.notes.len() - i,
        {
            proof {
                reveal(Seq::filter);
                assert(views(self.notes@.take(i as int + 1)).drop_last() =~= views(self.notes@.take(i as int)));
            }
            let ghost before = out@;
            if !self.notes[i].spent {
                let n = self.notes[i].copy_with_spent(false);
                out.push(n);
                proof {
                    assert(views(out@) =~= views(before).push(self.notes@[i as int]@));
                }
            }
            i = i + 1;
        }
        proof {
            assert(self.notes@.take(self.notes.len() as int) =~= self.notes@);
        }
        out
    }
}

/// The total of the unspent notes of `s`.
pub open spec fn unspent_total(s: Seq<ReceivedNote>) -> nat
    decreases s.len(),
{
    if s.len() == 0 {
        0
    } else {
        unspent_total(s.drop_last()) + if s.last().spent { 0 } else { s.last().value as nat }
    }
}

fn contains_id(ids: &Vec<u64>, id: u64) -> (r: bool)
    ensures
        r == ids@.contains(id),
{
    let mut i: usize = 0;
    while i < ids.len()
        invariant
            0 <= i <= ids.len(),
            forall|j: int| 0 <= j < i ==> ids@[j] != id,
        decreases ids.len() - i,
    {
        if ids[i] == id {
            return true;
        }
        i = i + 1;
    }
    false
}

fn apply_block(notes: &Vec<ReceivedNote>, b: &ScannedBlock) -> (r: Vec<ReceivedNote>)
    ensures
        views(r@) == notes_after(views(notes@), *b),
{
    let mut out: Vec<ReceivedNote> = Vec::new();
    let mut i: usize = 0;
    while i < notes.len()
        invariant
            0 <= i <= notes.len(),
            views(out@) =~= views(notes@.take(i as int)).map_values(|n: NoteView| marked(n, b.spent@)),
        decreases notes.len() - i,
    {
        let n = &notes[i];
        let spent = n.spent || contains_id(&b.spent, n.id);
        let ghost before = out@;
        out.push(n.copy_with_spent(spent));
        proof {
            assert(views(out@) =~= views(before).push(marked(notes@[i as int]@, b.spent@)));
            assert(views(notes@.take(i as int + 1)) =~= views(notes@.take(i as int)).push(notes@[i as int]@));
        }
        i = i + 1;
    }
    proof {
        assert(notes@.take(notes.len() as int) =~= notes@);
    }
    let mut j: usize = 0;
    let ghost base = views(out@);
    while j < b.received.len()
        invariant
            0 <= j <= b.received.len(),
            base =~= views(notes@).map_values(|n: NoteView| marked(n, b.spent@)),
            views(out@) =~= base + views(b.received@.take(j as int)),
        decreases b.received.len() - j,
    {
        let ghost before = out@;
        let n = &b.received[j];
        out.push(n.copy_with_spent(n.spent));
        proof {
            assert(views(out@) =~= views(before).push(b.received@[j as int]@));
            assert(views(b.received@.take(j as int + 1)) =~= views(b.received@.take(j as int)).push(b.received@[j as int]@));
        }
        j = j + 1;
    }
    proof {
        assert(b.received@.take(b.received.len() as int) =~= b.received@);
    }
    out
}

fn copy_notes(notes: &Vec<ReceivedNote>) -> (r: Vec<ReceivedNote>)
    ensures
        views(r@) == views(notes@),
{
    let mut out: Vec<ReceivedNote> = Vec::new();
    let mut i: usize = 0;
    while i < notes.len()
        invariant
            0 <= i <= notes.len(),
            views(out@) =~= views(notes@.take(i as int)),
        decreases notes.len() - i,
    {
        let ghost before = out@;
        let n = &notes[i];
        out.push(n.copy_with_spent(n.spent));
        proof {
            assert(views(out@) =~= views(before).push(notes@[i as int]@));
            assert(views(notes@.take(i as int + 1)) =~= views(notes@.take(i as int)).push(notes@[i as int]@));
        }
        i = i + 1;
    }
    proof {
        assert(notes@.take(notes.len() as int) =~= notes@);
    }
    out
}

proof fn lemma_scan_err_stays(idx: (u32, Seq<NoteView>), blocks: Seq<ScannedBlock>, k: int)
    requires
        0 <= k <= blocks.len(),
        scan_all(idx, blocks.take(k)) is Err,
    ensures
        scan_all(idx, blocks) is Err,
    decreases blocks.len() - k,
{
    if k < blocks.len() {
        assert(blocks.take(k + 1).drop_last() =~= blocks.take(k));
        lemma_scan_err_stays(idx, blocks, k + 1);
    } else {
        assert(blocks.take(k) =~= blocks);
    }
}

proof fn lemma_scan_height_covers(idx: (u32, Seq<NoteView>), blocks: Seq<ScannedBlock>)
    requires
        scan_all(idx, blocks) is Ok,
    ensures
        idx.0 <= scan_all(idx, blocks)->Ok_0.0,
        forall|j: int| 0 <= j < blocks.len() ==> (#[trigger] blocks[j]).height <= scan_all(idx, blocks)->Ok_0.0,
    decreases blocks.len(),
{
    if blocks.len() > 0 {
        lemma_scan_height_covers(idx, blocks.drop_last());
        assert forall|j: int| 0 <= j < blocks.len() implies (#[trigger] blocks[j]).height <= scan_all(idx, blocks)->Ok_0.0 by {
            if j < blocks.len() - 1 {
                assert(blocks.drop_last()[j] == blocks[j]);
            }
        }
    }
}

proof fn lemma_scan_nothing_new(idx: (u32, Seq<NoteView>), blocks: Seq<ScannedBlock>)
    requires
        forall|j: int| 0 <= j < blocks.len() ==> (#[trigger] blocks[j]).height <= idx.0,
    ensures
        scan_all(idx, blocks) == Ok::<(u32, Seq<NoteView>), WalletError>(idx),
    decreases blocks.len(),
{
    if blocks.len() > 0 {
        assert forall|j: int| 0 <= j < blocks.drop_last().len() implies (#[trigger] blocks.drop_last()[j]).height <= idx.0 by {
            assert(blocks.drop_last()[j] == blocks[j]);
        }
        lemma_scan_nothing_new(idx, blocks.drop_last());
        assert(blocks[blocks.len() - 1].height <= idx.0);
    }
}

/// Scanning the same cached blocks a second time leaves the note index as
/// the first scan left it.
pub proof fn lemma_scan_idempotent(idx: (u32, Seq<NoteView>), blocks: Seq<ScannedBlock>)
    requires
        scan_all(idx, blocks) is Ok,
    ensures
        scan_all(scan_all(idx, blocks)->Ok_0, blocks) == scan_all(idx, blocks),
{
    lemma_scan_height_covers(idx, blocks);
    lemma_scan_nothing_new(scan_all(idx, blocks)->Ok_0, blocks);
}

} // verus!
