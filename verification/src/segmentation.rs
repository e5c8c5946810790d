//! Reassembly of segmented confirmed requests (ASHRAE 135 Clause 5.2): one
//! buffer per invoke ID collects the segments' service data in sequence.
use vstd::prelude::*;
use crate::text::{copy_range, extend_bytes};

verus! {

/// How long a reassembly may stay incomplete, in milliseconds.
pub const REASSEMBLY_TIMEOUT_MS: u64 = 60_000;

/// Why a segment was refused.
#[derive(Debug, Clone, Copy, PartialEq, Eq, Structural)]
pub enum SegmentationError {
    /// A segment other than the first arrived for an invoke ID without a
    /// reassembly in progress.
    UnexpectedSegment,
    /// A segment arrived out of sequence; the reassembly is abandoned.
    OutOfOrder,
    /// A segment's data exceeds the maximum APDU length.
    SegmentTooLarge,
}

/// A reassembly in progress.
#[derive(Debug, Clone)]
pub struct ReassemblyBuffer {
    /// Sequence number expected next.
    pub next_sequence: u8,
    /// Service data received so far.
    pub data: Vec<u8>,
    /// Clock reading when the first segment arrived (ms).
    pub created_at_ms: u64,
}

/// Mathematical view of a reassembly: next sequence number, data, start time.
pub type ReassemblyView = (u8, Seq<u8>, u64);

pub open spec fn buffer_view(b: Option<ReassemblyBuffer>) -> Option<ReassemblyView> {
    match b {
        Some(x) => Some((x.next_sequence, x.data@, x.created_at_ms)),
        None => None,
    }
}

/// Reassembly buffers, one slot per invoke ID.
pub struct SegmentationManager {
    slots: Vec<Option<ReassemblyBuffer>>,
}

/// Number of slots holding a reassembly.
pub open spec fn count_active(s: Seq<Option<ReassemblyView>>) -> nat
    decreases s.len(),
{
    if s.len() == 0 {
        0
    } else {
        count_active(s.drop_last()) + if s.last() is Some {
            1nat
        } else {
            0nat
        }
    }
}

/// Result of offering a segment to slot contents `slot`: the new slot
/// contents and what the caller gets (the complete service data, nothing yet,
/// or the error).
pub open spec fn segment_step(
    slot: Option<ReassemblyView>,
    seq_num: u8,
    data: Seq<u8>,
    more_follows: bool,
    max_apdu_length: u16,
    now: u64,
) -> (Option<ReassemblyView>, Result<Option<Seq<u8>>, SegmentationError>) {
    if data.len() > max_apdu_length {
        (slot, Err(SegmentationError::SegmentTooLarge))
    } else {
        let start: Option<(Seq<u8>, u64)> = if seq_num == 0 {
            Some((data, now))
        } else {
            match slot {
                Some((next, so_far, created)) => if next == seq_num {
                    Some((so_far + data, created))
                } else {
                    None
                },
                None => None,
            }
        };
        match start {
            Some((all, created)) => if more_follows {
                (Some((seq_num.wrapping_add(1), all, created)), Ok(None))
            } else {
                (None, Ok(Some(all)))
            },
            None => if slot is Some {
                (None, Err(SegmentationError::OutOfOrder))
            } else {
                (None, Err(SegmentationError::UnexpectedSegment))
            },
        }
    }
}

/// Whether a reassembly started at `created` has timed out at `now`.
pub open spec fn reassembly_expired(created: u64, now: u64) -> bool {
    now > created && now - created > REASSEMBLY_TIMEOUT_MS
}

impl SegmentationManager {
    /// Slot contents by invoke ID.
    pub closed spec fn slots_view(&self) -> Seq<Option<ReassemblyView>> {
        self.slots@.map_values(|b: Option<ReassemblyBuffer>| buffer_view(b))
    }

    /// One slot for each of the 256 invoke IDs.
    pub closed spec fn wf(&self) -> bool {
        self.slots@.len() == 256
    }

    /// A manager with no reassembly in progress.
    pub fn new() -> (r: SegmentationManager)
        ensures
            r.wf(),
            r.slots_view() == Seq::new(256, |i: int| None::<ReassemblyView>),
    {
        let mut slots: Vec<Option<ReassemblyBuffer>> = Vec::new();
        let mut i: usize = 0;
        while i < 256
            invariant
                i <= 256,
                slots@.len() == i,
                forall|j: int| 0 <= j < i ==> slots@[j] is None,
            decreases 256 - i,
        {
            slots.push(None);
            i = i + 1;
        }
        let r = SegmentationManager { slots };
        assert(r.slots_view() =~= Seq::new(256, |i: int| None::<ReassemblyView>));
        r
    }

    /// Offer one segment of the request with `invoke_id`: the first segment
    /// (sequence 0) starts a reassembly, later ones must come in sequence;
    /// the last one (no more follows) completes it and hands out the data.
    pub fn process_segment(
        &mut self,
        invoke_id: u8,
        seq_num: u8,
        data: &[u8],
        more_follows: bool,
        max_apdu_length: u16,
        now_ms: u64,
    ) -> (r: Result<Option<Vec<u8>>, SegmentationError>)
        requires
            old(self).wf(),
        ensures
            final(self).wf(),
            ({
                let (slot, out) = segment_step(
                    old(self).slots_view()[invoke_id as int],
                    seq_num,
                    data@,
                    more_follows,
                    max_apdu_length,
                    now_ms,
                );
                &&& final(self).slots_view() == old(self).slots_view().update(invoke_id as int, slot)
                &&& match (r, out) {
                    (Ok(Some(v)), Ok(Some(w))) => v@ == w,
                    (Ok(None), Ok(None)) => true,
                    (Err(e), Err(f)) => e == f,
                    _ => false,
                }
            }),
    {
        let idx = invoke_id as usize;
        let ghost old_slots = self.slots_view();
        if data.len() > max_apdu_length as usize {
            return Err(SegmentationError::SegmentTooLarge);
        }
        let mut current: Option<ReassemblyBuffer> = None;
        std::mem::swap(&mut current, &mut self.slots[idx]);
        proof {
            assert(buffer_view(current) == old_slots[invoke_id as int]);
            assert(self.slots_view() =~= old_slots.update(invoke_id as int, None));
        }
        let started: Option<(Vec<u8>, u64)> = if seq_num == 0 {
            Some((copy_range(data, 0, data.len()), now_ms))
        } else {
            match current {
                Some(b) => {
                    if b.next_sequence == seq_num {
                        let mut all = b.data;
                        extend_bytes(&mut all, data);
                        Some((all, b.created_at_ms))
                    } else {
                        return Err(SegmentationError::OutOfOrder);
                    }
                },
                None => {
                    return Err(SegmentationError::UnexpectedSegment);
                },
            }
        };
        assert(data@.subrange(0, data@.len() as int) =~= data@);
        match started {
            Some((all, created)) => {
                if more_follows {
                    let ghost all_v = all@;
                    self.slots.set(
                        idx,
                        Some(
                            ReassemblyBuffer {
                                next_sequence: seq_num.wrapping_add(1),
                                data: all,
                                created_at_ms: created,
                            },
                        ),
                    );
                    assert(self.slots_view() =~= old_slots.update(
                        invoke_id as int,
                        Some((seq_num.wrapping_add(1), all_v, created)),
                    ));
                    Ok(None)
                } else {
                    Ok(Some(all))
                }
            },
            None => Err(SegmentationError::UnexpectedSegment),
        }
    }

    /// Drop reassemblies that have been incomplete for longer than the timeout.
    pub fn cleanup_timed_out_buffers(&mut self, now_ms: u64)
        requires
            old(self).wf(),
        ensures
            final(self).wf(),
            final(self).slots_view().len() == old(self).slots_view().len(),
            forall|i: int|
                0 <= i < old(self).slots_view().len() ==> #[trigger] final(self).slots_view()[i] == match old(self).slots_view()[i] {
                    Some(b) => if reassembly_expired(b.2, now_ms) {
                        None
                    } else {
                        Some(b)
                    },
                    None => None,
                },
    {
        let ghost old_slots = self.slots_view();
        let mut i: usize = 0;
        while i < self.slots.len()
            invariant
                i <= self.slots@.len() == 256,
                self.slots_view().len() == old_slots.len(),
                forall|j: int|
                    0 <= j < i ==> #[trigger] self.slots_view()[j] == match old_slots[j] {
                        Some(b) => if reassembly_expired(b.2, now_ms) {
                            None
                        } else {
                            Some(b)
                        },
                        None => None,
                    },
                forall|j: int| i <= j < 256 ==> #[trigger] self.slots_view()[j] == old_slots[j],
            decreases 256 - i,
        {
            let expired = match &self.slots[i] {
                Some(b) => now_ms > b.created_at_ms && now_ms - b.created_at_ms > REASSEMBLY_TIMEOUT_MS,
                None => false,
            };
            let ghost before = self.slots_view();
            assert(before[i as int] == old_slots[i as int]);
            assert(expired == (match old_slots[i as int] {
                Some(b) => reassembly_expired(b.2, now_ms),
                None => false,
            }));
            if expired {
                self.slots.set(i, None);
                assert(self.slots_view() =~= before.update(i as int, None));
            }
            i = i + 1;
        }
    }

    /// Number of reassemblies in progress.
    pub fn active_reassemblies(&self) -> (r: usize)
        requires
            self.wf(),
        ensures
            r == count_active(self.slots_view()),
    {
        let mut n: usize = 0;
        let mut i: usize = 0;
        while i < self.slots.len()
            invariant
                i <= self.slots@.len() == 256,
                n <= i,
                n == count_active(self.slots_view().take(i as int)),
            decreases 256 - i,
        {
            assert(self.slots_view().take(i as int + 1).drop_last() =~= self.slots_view().take(
                i as int,
            ));
            if self.slots[i].is_some() {
                n = n + 1;
            }
            i = i + 1;
        }
        assert(self.slots_view().take(256) =~= self.slots_view());
        n
    }
}

/// The service data of `segs` joined in order.
pub open spec fn joined(segs: Seq<Seq<u8>>) -> Seq<u8>
    decreases segs.len(),
{
    if segs.len() == 0 {
        Seq::empty()
    } else {
        joined(segs.drop_last()) + segs.last()
    }
}

/// Slot contents after offering `segs` as segments 0, 1, ... of one request,
/// each with more to follow, the `i`-th at clock reading `nows[i]`.
pub open spec fn open_run(
    slot: Option<ReassemblyView>,
    segs: Seq<Seq<u8>>,
    nows: Seq<u64>,
    max_apdu_length: u16,
) -> Option<ReassemblyView>
    decreases segs.len(),
{
    if segs.len() == 0 {
        slot
    } else {
        segment_step(
            open_run(slot, segs.drop_last(), nows, max_apdu_length),
            (segs.len() - 1) as u8,
            segs.last(),
            true,
            max_apdu_length,
            nows[segs.len() - 1],
        ).0
    }
}

proof fn lemma_open_run(slot: Option<ReassemblyView>, segs: Seq<Seq<u8>>, nows: Seq<u64>, max_apdu_length: u16)
    requires
        1 <= segs.len() <= 255,
        forall|i: int| 0 <= i < segs.len() ==> #[trigger] segs[i].len() <= max_apdu_length,
    ensures
        open_run(slot, segs, nows, max_apdu_length) == Some((segs.len() as u8, joined(segs), nows[0])),
    decreases segs.len(),
{
    if segs.len() > 1 {
        let p = segs.drop_last();
        assert forall|i: int| 0 <= i < p.len() implies #[trigger] p[i].len() <= max_apdu_length by {
            assert(p[i] == segs[i]);
        }
        lemma_open_run(slot, p, nows, max_apdu_length);
    } else {
        assert(segs.drop_last() =~= Seq::<Seq<u8>>::empty());
        assert(joined(segs.drop_last()) =~= Seq::<u8>::empty());
        assert(joined(segs) =~= segs[0]);
    }
    assert(segs.last().len() <= max_apdu_length);
}

/// Segments 0, 1, ..., n-1 of a request (n at most 256), offered in order,
/// each no longer than the maximum APDU and all but the last with more to
/// follow, are reassembled into their data joined in order, whatever
/// reassembly the slot held before; the slot is then free again.
pub proof fn lemma_in_order_reassembly(slot: Option<ReassemblyView>, segs: Seq<Seq<u8>>, nows: Seq<u64>, max_apdu_length: u16)
    requires
        1 <= segs.len() <= 256,
        forall|i: int| 0 <= i < segs.len() ==> #[trigger] segs[i].len() <= max_apdu_length,
    ensures
        segment_step(
            open_run(slot, segs.drop_last(), nows, max_apdu_length),
            (segs.len() - 1) as u8,
            segs.last(),
            false,
            max_apdu_length,
            nows[segs.len() - 1],
        ) == (None::<ReassemblyView>, Ok::<Option<Seq<u8>>, SegmentationError>(Some(joined(segs)))),
{
    let p = segs.drop_last();
    assert(segs.last().len() <= max_apdu_length);
    if segs.len() > 1 {
        assert forall|i: int| 0 <= i < p.len() implies #[trigger] p[i].len() <= max_apdu_length by {
            assert(p[i] == segs[i]);
        }
        lemma_open_run(slot, p, nows, max_apdu_length);
    } else {
        assert(joined(p) =~= Seq::<u8>::empty());
        assert(joined(segs) =~= segs[0]);
    }
}

/// A segment that is not the one expected next (and not a new first
/// segment) abandons the reassembly and is refused as out of order.
pub proof fn lemma_out_of_order_refused(
    slot: ReassemblyView,
    seq_num: u8,
    data: Seq<u8>,
    more_follows: bool,
    max_apdu_length: u16,
    now: u64,
)
    requires
        seq_num != 0,
        seq_num != slot.0,
        data.len() <= max_apdu_length,
    ensures
        segment_step(Some(slot), seq_num, data, more_follows, max_apdu_length, now) == (
            None::<ReassemblyView>,
            Err::<Option<Seq<u8>>, SegmentationError>(SegmentationError::OutOfOrder),
        ),
{
}

} // verus!
