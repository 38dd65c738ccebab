//! How the slots of an archive are parted into segments.

use vstd::prelude::*;

verus! {

/// Where the scan of the table stands: the number of the segment it is
/// in, and the flag of the slot with which that segment began.
#[derive(Clone, Copy, Debug, PartialEq, Eq, Structural)]
pub struct SegmentState {
    pub counter: usize,
    pub prev_t: u16,
}

/// The second bit of a flag.
pub open spec fn parity(t_flag: u16) -> int {
    t_flag as int / 2 % 2
}

/// Whether a slot with flag `t_flag` begins a new segment after one that a
/// slot with flag `prev_t` began: its flag is not 2, and differs from the
/// other in its second bit.
pub open spec fn starts_segment(prev_t: u16, t_flag: u16) -> bool {
    t_flag != 2 && parity(prev_t) != parity(t_flag)
}

/// The state in which the scan begins: segment 0, and a flag of 0 before
/// the first slot.
pub open spec fn segment_start() -> (int, u16) {
    (0, 0u16)
}

/// The state of the scan behind a slot with flag `t_flag`. An empty slot
/// leaves it as it is; a slot that begins a new segment raises the counter
/// by one and leaves its flag behind.
pub open spec fn segment_step(state: (int, u16), t_flag: u16) -> (int, u16) {
    if t_flag != 4 && starts_segment(state.1, t_flag) {
        (state.0 + 1, t_flag)
    } else {
        state
    }
}

/// The state of the scan behind all the slots with the flags `flags`.
pub open spec fn segment_state(flags: Seq<u16>) -> (int, u16)
    decreases flags.len(),
{
    if flags.len() == 0 {
        segment_start()
    } else {
        segment_step(segment_state(flags.drop_last()), flags.last())
    }
}

/// The segment of the `i`-th of the slots with the flags `flags`: that of
/// the scan behind it, and 0 for an empty slot.
pub open spec fn segment_at(flags: Seq<u16>, i: int) -> int {
    if flags[i] == 4 {
        0
    } else {
        segment_state(flags.subrange(0, i + 1)).0
    }
}

/// Two flags differ in their second bit exactly where they differ under the
/// mask 2.
pub proof fn lemma_parity_is_mask(a: u16, b: u16)
    ensures
        parity(a) != parity(b) <==> (a & 2) != (b & 2),
{
    assert((a / 2 % 2 != b / 2 % 2) <==> ((a & 2) != (b & 2))) by (bit_vector);
}

/// The segment counter never runs ahead of the number of slots scanned.
pub proof fn lemma_segment_bounded(flags: Seq<u16>)
    ensures
        0 <= segment_state(flags).0 <= flags.len(),
    decreases flags.len(),
{
    if flags.len() > 0 {
        lemma_segment_bounded(flags.drop_last());
    }
}

/// The rule by which slots are parted into segments: from one slot to the
/// next the segment stays or grows by one, and it grows exactly where the
/// slot is not empty, its flag is not 2, and the second bit of its flag
/// differs from that of the flag with which the segment before it began.
pub proof fn lemma_segment_partition(flags: Seq<u16>, t_flag: u16)
    ensures
        segment_state(flags.push(t_flag)).0 == segment_state(flags).0 + (if t_flag != 4 && t_flag != 2
            && parity(segment_state(flags).1) != parity(t_flag) {
            1int
        } else {
            0int
        }),
{
    assert(flags.push(t_flag).drop_last() =~= flags);
}

impl SegmentState {
    /// The state in which the scan begins.
    pub fn new() -> (state: SegmentState)
        ensures
            (state.counter as int, state.prev_t) == segment_start(),
    {
        SegmentState { counter: 0, prev_t: 0 }
    }

    /// Moves the scan over a slot with flag `t_flag`.
    pub fn step(&mut self, t_flag: u16)
        requires
            old(self).counter < usize::MAX,
        ensures
            (final(self).counter as int, final(self).prev_t) == segment_step(
                (old(self).counter as int, old(self).prev_t),
                t_flag,
            ),
    {
        if t_flag != 4 && t_flag != 2 && self.prev_t / 2 % 2 != t_flag / 2 % 2 {
            self.counter = self.counter + 1;
            self.prev_t = t_flag;
        }
    }
}

} // verus!
