//! A progressively built index of frame positions, used to speed up seeks in
//! streams that carry no index of their own.
use vstd::prelude::*;

verus! {

/// Number of samples per millisecond at the driver's sample rate.
pub const SAMPLES_PER_MS: u64 = 48;

/// Whether entry `i` of `offsets` is where a seek to `ts` starts reading: the entry
/// lies at or before `ts`, and the entry after it, if any, lies after `ts`.
pub open spec fn is_seek_entry(offsets: Seq<(i64, u64)>, i: int, ts: int) -> bool {
    &&& 0 <= i < offsets.len()
    &&& offsets[i].0 <= ts
    &&& (i + 1 == offsets.len() || offsets[i + 1].0 > ts)
}

/// Whether the timestamps of `offsets` never decrease.
pub open spec fn sorted_by_ts(offsets: Seq<(i64, u64)>) -> bool {
    forall|a: int, b: int| 0 <= a <= b < offsets.len() ==> offsets[a].0 <= offsets[b].0
}

/// A seek index: pairs of (timestamp, byte position) of frames seen so far.
///
/// An entry is added for the first frame at or after each multiple of the fill
/// period, counted from the start of the stream.
pub struct SeekAccel {
    frame_offsets: Vec<(i64, u64)>,
    step: u64,
    next_ts: i64,
}

impl SeekAccel {
    /// The entries of the index, oldest first.
    pub closed spec fn offsets(&self) -> Seq<(i64, u64)> {
        self.frame_offsets@
    }

    /// Number of samples between two index entries.
    pub closed spec fn step(&self) -> nat {
        self.step as nat
    }

    /// The timestamp from which the next frame is recorded.
    pub closed spec fn next_ts(&self) -> int {
        self.next_ts as int
    }

    /// Well-formedness: the index starts with the first frame at timestamp 0, and
    /// no timestamp in it is negative.
    pub open spec fn wf(&self) -> bool {
        &&& self.offsets().len() >= 1
        &&& self.offsets()[0].0 == 0
        &&& forall|i: int| 0 <= i < self.offsets().len() ==> #[trigger] self.offsets()[i].0 >= 0
        &&& self.next_ts() >= 0
    }

    /// Creates an index whose only entry is the first frame, at byte
    /// `first_frame_byte_pos`, adding an entry every `fill_period_ms` milliseconds.
    pub fn new(fill_period_ms: u16, first_frame_byte_pos: u64) -> (s: Self)
        ensures
            s.wf(),
            s.offsets() == seq![(0i64, first_frame_byte_pos)],
            s.step() == fill_period_ms * SAMPLES_PER_MS,
            s.next_ts() == fill_period_ms * SAMPLES_PER_MS,
    {
        let step = (fill_period_ms as u64) * SAMPLES_PER_MS;
        let mut frame_offsets = Vec::new();
        frame_offsets.push((0i64, first_frame_byte_pos));
        SeekAccel { frame_offsets, step, next_ts: step as i64 }
    }

    /// The timestamp from which the next frame is recorded.
    pub fn fill_point(&self) -> (r: i64)
        ensures
            r == self.next_ts(),
    {
        self.next_ts
    }

    /// Number of samples between two index entries.
    pub fn fill_step(&self) -> (r: u64)
        ensures
            r == self.step(),
    {
        self.step
    }

    /// Whether `self` is `before` after recording the frame at timestamp `ts` and byte
    /// `pos`: the frame is added, and the fill point moves one period on, exactly when
    /// `ts` has reached the fill point.
    pub open spec fn updated_from(&self, before: SeekAccel, ts: int, pos: u64) -> bool {
        &&& self.step() == before.step()
        &&& ts >= before.next_ts() ==> {
            &&& self.offsets() == before.offsets().push((ts as i64, pos))
            &&& self.next_ts() == before.next_ts() + before.step()
        }
        &&& ts < before.next_ts() ==> {
            &&& self.offsets() == before.offsets()
            &&& self.next_ts() == before.next_ts()
        }
    }

    /// Records the frame at timestamp `ts` and byte `pos` if it is the first one at or
    /// after the next fill point.
    pub fn update(&mut self, ts: i64, pos: u64)
        requires
            old(self).wf(),
            ts >= old(self).next_ts() ==> old(self).next_ts() + old(self).step() <= i64::MAX,
        ensures
            final(self).wf(),
            final(self).updated_from(*old(self), ts as int, pos),
    {
        if ts >= self.next_ts {
            self.next_ts = self.next_ts + (self.step as i64);
            self.frame_offsets.push((ts, pos));
            assert forall|i: int| 0 <= i < self.offsets().len() implies #[trigger] self.offsets()[i].0 >= 0 by {
                if i < old(self).offsets().len() {
                    assert(self.offsets()[i] == old(self).offsets()[i]);
                }
            }
        }
    }

    /// The index entry from which to read forward to reach timestamp `ts`: an entry at
    /// or before `ts` whose successor, if any, lies after `ts`.
    pub fn get_seek_pos(&self, ts: i64) -> (r: (i64, u64))
        requires
            self.wf(),
            ts >= 0,
        ensures
            exists|i: int| is_seek_entry(self.offsets(), i, ts as int) && r == self.offsets()[i],
            r.0 <= ts,
    {
        let len = self.frame_offsets.len();
        let mut lo: usize = 0;
        let mut hi: usize = len;
        while hi - lo > 1
            invariant
                len == self.offsets().len(),
                lo < hi <= len,
                self.offsets()[lo as int].0 <= ts,
                hi == len || self.offsets()[hi as int].0 > ts,
            decreases hi - lo,
        {
            let mid = lo + (hi - lo) / 2;
            if self.frame_offsets[mid].0 <= ts {
                lo = mid;
            } else {
                hi = mid;
            }
        }
        let r = self.frame_offsets[lo];
        assert(is_seek_entry(self.offsets(), lo as int, ts as int));
        r
    }
}

/// A seek never starts after the requested timestamp, and when the index is ordered
/// it starts from the latest indexed frame at or before it.
pub proof fn lemma_seek_entry_is_latest(offsets: Seq<(i64, u64)>, i: int, ts: int)
    requires
        is_seek_entry(offsets, i, ts),
        sorted_by_ts(offsets),
    ensures
        offsets[i].0 <= ts,
        forall|j: int| i < j < offsets.len() ==> #[trigger] offsets[j].0 > ts,
{
    assert forall|j: int| i < j < offsets.len() implies #[trigger] offsets[j].0 > ts by {
        assert(offsets[i + 1].0 <= offsets[j].0);
    }
}

/// Recording frames never loses the first frame: a seek can always start over
/// from the first frame of the stream.
pub proof fn lemma_update_keeps_first_entry(before: SeekAccel, after: SeekAccel, ts: int, pos: u64)
    requires
        before.offsets().len() >= 1,
        after.updated_from(before, ts, pos),
    ensures
        after.offsets().len() >= 1,
        after.offsets()[0] == before.offsets()[0],
{
}

/// The index stays ordered by timestamp when each frame recorded is not older than
/// the newest entry.
pub proof fn lemma_update_keeps_order(before: SeekAccel, after: SeekAccel, ts: int, pos: u64)
    requires
        sorted_by_ts(before.offsets()),
        before.offsets().len() >= 1,
        ts >= before.offsets().last().0,
        ts <= i64::MAX,
        after.updated_from(before, ts, pos),
    ensures
        sorted_by_ts(after.offsets()),
{
    let s = before.offsets();
    if ts >= before.next_ts() {
        assert forall|a: int, b: int| 0 <= a <= b < after.offsets().len() implies after.offsets()[a].0
            <= after.offsets()[b].0 by {
            if b == s.len() {
                assert(s[a].0 <= s.last().0 || a == s.len());
            }
        }
    }
}

/// Whether `states` is a run of index states from a fresh index at byte `first_pos`,
/// each one `updates[i]` on from the last, with frame timestamps that never decrease
/// and are not negative.
pub open spec fn is_update_run(states: Seq<SeekAccel>, updates: Seq<(int, u64)>, first_pos: u64) -> bool {
    &&& states.len() == updates.len() + 1
    &&& states[0].offsets() == seq![(0i64, first_pos)]
    &&& forall|i: int|
        #![trigger updates[i]]
        0 <= i < updates.len() ==> states[i + 1].updated_from(states[i], updates[i].0, updates[i].1)
    &&& forall|i: int| #![trigger updates[i]] 0 <= i < updates.len() ==> 0 <= updates[i].0 <= i64::MAX
    &&& forall|i: int, j: int| 0 <= i <= j < updates.len() ==> #[trigger] updates[i].0 <= #[trigger] updates[j].0
}

proof fn lemma_update_run_prefix(states: Seq<SeekAccel>, updates: Seq<(int, u64)>, first_pos: u64, k: int)
    requires
        is_update_run(states, updates, first_pos),
        0 <= k < states.len(),
    ensures
        states[k].offsets().len() >= 1,
        states[k].offsets()[0] == (0i64, first_pos),
        sorted_by_ts(states[k].offsets()),
        k == 0 ==> states[k].offsets().last().0 == 0,
        k > 0 ==> states[k].offsets().last().0 <= updates[k - 1].0,
    decreases k,
{
    if k > 0 {
        lemma_update_run_prefix(states, updates, first_pos, k - 1);
        let before = states[k - 1];
        let ts = updates[k - 1].0;
        let pos = updates[k - 1].1;
        assert(states[k].updated_from(before, ts, pos));
        if k >= 2 {
            assert(updates[k - 2].0 <= updates[k - 1].0);
        }
        lemma_update_keeps_order(before, states[k], ts, pos);
        lemma_update_keeps_first_entry(before, states[k], ts, pos);
    }
}

/// Along any run of updates whose frame timestamps never decrease, the index keeps
/// the first frame as its first entry and stays ordered by timestamp (entries may
/// repeat a timestamp when a frame is recorded twice).
pub proof fn lemma_update_run_keeps_first_entry_and_order(
    states: Seq<SeekAccel>,
    updates: Seq<(int, u64)>,
    first_pos: u64,
)
    requires
        is_update_run(states, updates, first_pos),
    ensures
        states.last().offsets()[0] == (0i64, first_pos),
        sorted_by_ts(states.last().offsets()),
{
    lemma_update_run_prefix(states, updates, first_pos, states.len() - 1);
}

/// Recording a frame adds exactly one entry, the frame itself, when the frame is at
/// or past the fill point, and moves the fill point one period on; a frame before
/// the fill point changes nothing.
pub proof fn lemma_update_records_fill_points(before: SeekAccel, after: SeekAccel, ts: int, pos: u64)
    requires
        after.updated_from(before, ts, pos),
    ensures
        ts >= before.next_ts() ==> after.offsets().len() == before.offsets().len() + 1 && after.offsets().last() == (
        ts as i64, pos) && after.next_ts() == before.next_ts() + before.step() && forall|i: int|
            0 <= i < before.offsets().len() ==> #[trigger] after.offsets()[i] == before.offsets()[i],
        ts < before.next_ts() ==> after.offsets() == before.offsets() && after.next_ts() == before.next_ts(),
        after.step() == before.step(),
{
}

} // verus!
