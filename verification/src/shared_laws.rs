//! What holds over the whole history of a block of frame slots: every publication ends
//! once, and the records say how.
use vstd::prelude::*;

use crate::bytes::{le_value, lemma_le_bytes_len};
use crate::events::{DiscardReason, EventKind, FrameAllocation};
use crate::frame_records::{all_given_up, claim_kinds, given_up, publication_kinds, selection_kinds};
use crate::frame_slots::FrameTiming;
use crate::marker::{DecodeError, Marker};
use crate::shared_frames::{
    first_free, fresh_block, group_block, newest_ready, older_numbers, oldest_ready,
    ready_numbers, slot_at, slot_number, slot_state, with_allocation, with_bytes, with_state,
    with_word, without_older, word, SharedClaim, SharedError, SharedFrameMap, SharedPublication,
    SharedSelection, FREE, READING, READY, WRITING,
};

verus! {

/// One step of a process on a block. Between two steps of one process, others can take
/// theirs, so a slot that was chosen may hold another publication when it is owned.
pub enum BlockStep {
    /// A slot is claimed to be written: a free one, or a visible one, whose publication is
    /// given up.
    Claim(SharedClaim),
    /// A claimed slot gets its frame and becomes visible.
    Fill {
        index: int,
        number: u64,
        pixels: Seq<u8>,
        timing: FrameTiming,
        allocation: Option<FrameAllocation>,
        marker: Result<Marker, DecodeError>,
    },
    /// A claimed slot gets pixels, and no number is left for it.
    Paint { index: int, pixels: Seq<u8> },
    /// A visible slot is owned to be read.
    Own(SharedSelection),
    /// A slot that was read is free again, and older publications are given up.
    Release(SharedSelection),
}

impl BlockStep {
    /// A step leads from one block to another.
    pub open spec fn leads(self, map: SharedFrameMap, s: Seq<u8>, t: Seq<u8>) -> bool {
        match self {
            BlockStep::Claim(claim) => {
                &&& claim.index < 3
                &&& match claim.discarded {
                    None => slot_state(s, claim.index as int) == FREE,
                    Some(n) => slot_state(s, claim.index as int) == READY && n == slot_number(
                        s,
                        claim.index as int,
                    ),
                }
                &&& t == with_state(s, claim.index as int, WRITING)
            },
            BlockStep::Fill { index, number, pixels, timing, allocation, marker } => {
                &&& 0 <= index < 3
                &&& slot_state(s, index) == WRITING
                &&& number == word(s, 32) + 1
                &&& pixels.len() == map.slot_bytes
                &&& t == map.with_publication(s, index, number, pixels, timing, allocation)
            },
            BlockStep::Paint { index, pixels } => {
                &&& 0 <= index < 3
                &&& slot_state(s, index) == WRITING
                &&& pixels.len() == map.slot_bytes
                &&& t == with_bytes(s, map.pixels_at(index), pixels)
            },
            BlockStep::Own(selection) => {
                &&& selection.index < 3
                &&& slot_state(s, selection.index as int) == READY
                &&& selection.sequence == slot_number(s, selection.index as int)
                &&& t == with_state(s, selection.index as int, READING)
            },
            BlockStep::Release(selection) => {
                let n = selection.index as int;
                &&& selection.index < 3
                &&& slot_state(s, n) == READING
                &&& t == without_older(with_state(s, n, FREE), n, selection.sequence, 3)
            },
        }
    }

    /// What is written down of a step on a block.
    pub open spec fn kinds(self, s: Seq<u8>) -> Seq<EventKind> {
        match self {
            BlockStep::Claim(claim) => claim_kinds(claim.discarded),
            BlockStep::Fill { number, allocation, marker, .. } => seq![
                EventKind::Published { sequence: number, allocation, marker },
            ],
            BlockStep::Paint { .. } => Seq::empty(),
            BlockStep::Own(selection) => seq![
                EventKind::Selected { sequence: selection.sequence },
            ],
            BlockStep::Release(selection) => {
                let n = selection.index as int;
                all_given_up(
                    older_numbers(with_state(s, n, FREE), n, selection.sequence, 3),
                    DiscardReason::ConsumerSuperseded,
                )
            },
        }
    }
}

/// The history of a block from the moment it was made: its contents, and the step from
/// each of them to the next.
pub struct BlockHistory {
    pub map: SharedFrameMap,
    pub blocks: Seq<Seq<u8>>,
    pub steps: Seq<BlockStep>,
}

impl BlockHistory {
    /// Every step leads from one content to the next.
    pub open spec fn valid(self) -> bool {
        &&& self.blocks.len() == self.steps.len() + 1
        &&& self.blocks[0] == fresh_block(self.map)
        &&& forall|k: int|
            0 <= k < self.steps.len() ==> (#[trigger] self.steps[k]).leads(
                self.map,
                self.blocks[k],
                self.blocks[k + 1],
            )
    }

    /// What was written down of the first steps.
    pub open spec fn records(self, k: int) -> Seq<EventKind>
        decreases k,
    {
        if k <= 0 {
            Seq::empty()
        } else {
            self.records(k - 1) + self.steps[k - 1].kinds(self.blocks[k - 1])
        }
    }

    /// The block as it stands.
    pub open spec fn now(self) -> Seq<u8> {
        self.blocks[self.steps.len() as int]
    }

    /// What was written down of all steps.
    pub open spec fn all_records(self) -> Seq<EventKind> {
        self.records(self.steps.len() as int)
    }
}

/// What is written down when a process lets go of a block: its owner gives up what is
/// visible, a process that only opened it nothing.
pub open spec fn closing_kinds(s: Seq<u8>, owner: bool) -> Seq<EventKind> {
    if owner {
        all_given_up(ready_numbers(s, 3), DiscardReason::MappingClosed)
    } else {
        Seq::empty()
    }
}

/// A record ends a publication: it was selected or given up.
pub open spec fn ends(kind: EventKind, n: u64) -> bool {
    match kind {
        EventKind::Selected { sequence } => sequence == n,
        EventKind::Discarded { sequence, .. } => sequence == n,
        _ => false,
    }
}

/// A record says that a publication was made.
pub open spec fn announces(kind: EventKind, n: u64) -> bool {
    kind matches EventKind::Published { sequence, .. } && sequence == n
}

/// How often a publication ends in some records.
pub open spec fn times_ended(kinds: Seq<EventKind>, n: u64) -> nat
    decreases kinds.len(),
{
    if kinds.len() == 0 {
        0
    } else {
        times_ended(kinds.drop_last(), n) + once(ends(kinds.last(), n))
    }
}

/// How often a publication is made in some records.
pub open spec fn times_published(kinds: Seq<EventKind>, n: u64) -> nat
    decreases kinds.len(),
{
    if kinds.len() == 0 {
        0
    } else {
        times_published(kinds.drop_last(), n) + once(announces(kinds.last(), n))
    }
}

/// One for what is so.
pub open spec fn once(so: bool) -> nat {
    if so {
        1
    } else {
        0
    }
}

/// How many of the first `k` slots show a publication.
pub open spec fn times_visible(s: Seq<u8>, n: u64, k: int) -> nat
    decreases k,
{
    if k <= 0 {
        0
    } else {
        times_visible(s, n, k - 1) + once(
            slot_state(s, k - 1) == READY && slot_number(s, k - 1) == n,
        )
    }
}

proof fn lemma_times_add(a: Seq<EventKind>, b: Seq<EventKind>, n: u64)
    ensures
        times_ended(a + b, n) == times_ended(a, n) + times_ended(b, n),
        times_published(a + b, n) == times_published(a, n) + times_published(b, n),
    decreases b.len(),
{
    if b.len() == 0 {
        assert(a + b =~= a);
    } else {
        lemma_times_add(a, b.drop_last(), n);
        assert((a + b).drop_last() =~= a + b.drop_last());
    }
}

proof fn lemma_times_one(kind: EventKind, n: u64)
    ensures
        times_ended(seq![kind], n) == once(ends(kind, n)),
        times_published(seq![kind], n) == once(announces(kind, n)),
{
    assert(seq![kind].drop_last() =~= Seq::empty());
    reveal_with_fuel(times_ended, 2);
    reveal_with_fuel(times_published, 2);
}

proof fn lemma_times_given_up(numbers: Seq<u64>, more: u64, reason: DiscardReason, n: u64)
    ensures
        times_ended(all_given_up(numbers.push(more), reason), n) == times_ended(
            all_given_up(numbers, reason),
            n,
        ) + once(more == n),
{
    let longer = all_given_up(numbers.push(more), reason);
    assert(longer.drop_last() =~= all_given_up(numbers, reason));
    assert(longer.last() == given_up(more, reason));
}

proof fn lemma_nothing_published(numbers: Seq<u64>, reason: DiscardReason, n: u64)
    ensures
        times_published(all_given_up(numbers, reason), n) == 0,
    decreases numbers.len(),
{
    if numbers.len() > 0 {
        let kinds = all_given_up(numbers, reason);
        lemma_nothing_published(numbers.drop_last(), reason, n);
        assert(kinds.drop_last() =~= all_given_up(numbers.drop_last(), reason));
        assert(kinds.last() == given_up(numbers.last(), reason));
    }
}

proof fn lemma_state_changed(s: Seq<u8>, i: int, state: u8, n: u64)
    requires
        s.len() >= 320,
        0 <= i < 3,
        state != READY,
    ensures
        times_visible(with_state(s, i, state), n, 3) + once(
            slot_state(s, i) == READY && slot_number(s, i) == n,
        ) == times_visible(s, n, 3),
        word(with_state(s, i, state), 32) == word(s, 32),
        with_state(s, i, state).len() == s.len(),
{
    broadcast use group_block;

    let t = with_state(s, i, state);
    reveal_with_fuel(times_visible, 4);
    assert(slot_number(t, 0) == slot_number(s, 0));
    assert(slot_number(t, 1) == slot_number(s, 1));
    assert(slot_number(t, 2) == slot_number(s, 2));
}

proof fn lemma_filled(
    map: SharedFrameMap,
    s: Seq<u8>,
    i: int,
    number: u64,
    pixels: Seq<u8>,
    timing: FrameTiming,
    allocation: Option<FrameAllocation>,
    n: u64,
)
    requires
        map.fits(s),
        0 <= i < 3,
        slot_state(s, i) != READY,
        pixels.len() == map.slot_bytes,
    ensures
        ({
            let t = map.with_publication(s, i, number, pixels, timing, allocation);
            &&& t.len() == s.len()
            &&& word(t, 32) == number
            &&& times_visible(t, n, 3) == times_visible(s, n, 3) + once(number == n)
        }),
{
    broadcast use group_block;

    let size = map.slot_bytes as int;
    assert(0 <= i * size) by (nonlinear_arith)
        requires
            0 <= i,
            0 <= size,
    ;
    let t = map.with_publication(s, i, number, pixels, timing, allocation);
    let painted = with_bytes(s, map.pixels_at(i), pixels);
    let counted = with_word(painted, 32, number);
    let numbered = with_word(counted, slot_at(i) + 8, number);
    let timed = with_word(numbered, slot_at(i) + 16, timing.presentation_time.bits);
    let paced = with_word(timed, slot_at(i) + 24, timing.delta.bits);
    let allocated = with_allocation(paced, i, allocation);
    assert(t == allocated.update(slot_at(i), READY));
    assert forall|j: int| 0 <= j < 3 implies #[trigger] slot_number(t, j) == (if j == i {
        number
    } else {
        slot_number(s, j)
    }) && slot_state(t, j) == (if j == i {
        READY
    } else {
        slot_state(s, j)
    }) by {}
    reveal_with_fuel(times_visible, 4);
    assert(slot_number(t, 0) == slot_number(t, 0) && slot_number(t, 1) == slot_number(t, 1)
        && slot_number(t, 2) == slot_number(t, 2));
}

proof fn lemma_painted(map: SharedFrameMap, s: Seq<u8>, i: int, pixels: Seq<u8>, n: u64)
    requires
        map.fits(s),
        0 <= i < 3,
        pixels.len() == map.slot_bytes,
    ensures
        ({
            let t = with_bytes(s, map.pixels_at(i), pixels);
            &&& t.len() == s.len()
            &&& word(t, 32) == word(s, 32)
            &&& times_visible(t, n, 3) == times_visible(s, n, 3)
        }),
{
    broadcast use group_block;

    let size = map.slot_bytes as int;
    assert(0 <= i * size) by (nonlinear_arith)
        requires
            0 <= i,
            0 <= size,
    ;
    let t = with_bytes(s, map.pixels_at(i), pixels);
    reveal_with_fuel(times_visible, 4);
    assert(slot_number(t, 0) == slot_number(s, 0));
    assert(slot_number(t, 1) == slot_number(s, 1));
    assert(slot_number(t, 2) == slot_number(s, 2));
}

proof fn lemma_older_given_up(s: Seq<u8>, place: int, number: u64, k: int, n: u64)
    requires
        s.len() >= 320,
        0 <= k <= 3,
    ensures
        ({
            let t = without_older(s, place, number, k);
            let numbers = older_numbers(s, place, number, k);
            &&& t.len() == s.len()
            &&& word(t, 32) == word(s, 32)
            &&& forall|j: int| k <= j < 3 ==> slot_state(t, j) == #[trigger] slot_state(s, j)
            &&& forall|j: int| 0 <= j < 3 ==> slot_number(t, j) == #[trigger] slot_number(s, j)
            &&& times_ended(all_given_up(numbers, DiscardReason::ConsumerSuperseded), n)
                + times_visible(t, n, 3) == times_visible(s, n, 3)
        }),
    decreases k,
{
    broadcast use group_block;

    if k <= 0 {
        assert(all_given_up(Seq::empty(), DiscardReason::ConsumerSuperseded) =~= Seq::empty());
    } else {
        lemma_older_given_up(s, place, number, k - 1, n);
        let t = without_older(s, place, number, k - 1);
        let numbers = older_numbers(s, place, number, k - 1);
        if k - 1 != place && slot_state(s, k - 1) == READY && slot_number(s, k - 1) < number {
            lemma_state_changed(t, k - 1, FREE, n);
            lemma_times_given_up(
                numbers,
                slot_number(s, k - 1),
                DiscardReason::ConsumerSuperseded,
                n,
            );
        }
    }
}

proof fn lemma_closed(s: Seq<u8>, k: int, n: u64)
    requires
        0 <= k <= 3,
    ensures
        times_ended(all_given_up(ready_numbers(s, k), DiscardReason::MappingClosed), n)
            == times_visible(s, n, k),
    decreases k,
{
    if k <= 0 {
        assert(all_given_up(Seq::empty(), DiscardReason::MappingClosed) =~= Seq::empty());
    } else {
        lemma_closed(s, k - 1, n);
        if slot_state(s, k - 1) == READY {
            lemma_times_given_up(
                ready_numbers(s, k - 1),
                slot_number(s, k - 1),
                DiscardReason::MappingClosed,
                n,
            );
        }
    }
}

proof fn lemma_fresh(map: SharedFrameMap, n: u64)
    ensures
        map.fits(fresh_block(map)),
        word(fresh_block(map), 32) == 0,
        times_visible(fresh_block(map), n, 3) == 0,
{
    let s = fresh_block(map);
    lemma_le_bytes_len(map.width as nat, 4);
    lemma_le_bytes_len(map.height as nat, 4);
    lemma_le_bytes_len(map.stride as nat, 4);
    lemma_le_bytes_len(map.slot_bytes as nat, 4);
    reveal(word);
    let zeros = s.subrange(32, 40);
    assert(zeros =~= Seq::new(8, |k: int| 0u8));
    reveal_with_fuel(le_value, 9);
    reveal_with_fuel(times_visible, 4);
}

/// After each step, every number up to the last is visible once or has ended once, and
/// no other number is or has.
pub proof fn law_shared_publications_wait_or_have_ended(h: BlockHistory, k: int, n: u64)
    requires
        h.valid(),
        0 <= k <= h.steps.len(),
    ensures
        h.map.fits(h.blocks[k]),
        times_published(h.records(k), n) == once(1 <= n <= word(h.blocks[k], 32)),
        times_ended(h.records(k), n) + times_visible(h.blocks[k], n, 3) == once(
            1 <= n <= word(h.blocks[k], 32),
        ),
    decreases k,
{
    if k == 0 {
        lemma_fresh(h.map, n);
    } else {
        law_shared_publications_wait_or_have_ended(h, k - 1, n);
        let s = h.blocks[k - 1];
        let step = h.steps[k - 1];
        let kinds = step.kinds(s);
        assert(step.leads(h.map, s, h.blocks[k - 1 + 1]));
        lemma_times_add(h.records(k - 1), kinds, n);
        match step {
            BlockStep::Claim(claim) => {
                lemma_state_changed(s, claim.index as int, WRITING, n);
                if let Some(m) = claim.discarded {
                    lemma_times_one(given_up(m, DiscardReason::ProducerReclaim), n);
                }
            },
            BlockStep::Fill { index, number, pixels, timing, allocation, marker } => {
                lemma_filled(h.map, s, index, number, pixels, timing, allocation, n);
                lemma_times_one(
                    EventKind::Published { sequence: number, allocation, marker },
                    n,
                );
            },
            BlockStep::Paint { index, pixels } => {
                lemma_painted(h.map, s, index, pixels, n);
            },
            BlockStep::Own(selection) => {
                lemma_state_changed(s, selection.index as int, READING, n);
                lemma_times_one(EventKind::Selected { sequence: selection.sequence }, n);
            },
            BlockStep::Release(selection) => {
                let place = selection.index as int;
                let freed = with_state(s, place, FREE);
                lemma_state_changed(s, place, FREE, n);
                lemma_older_given_up(freed, place, selection.sequence, 3, n);
                lemma_nothing_published(
                    older_numbers(freed, place, selection.sequence, 3),
                    DiscardReason::ConsumerSuperseded,
                    n,
                );
            },
        }
    }
}

/// Once every process has let go of a block, its owner last, each publication that was
/// ever made has ended exactly once, selected or given up, and nothing else has. What is
/// given up by the closing is exactly what was still visible, and a process that only
/// opened the block gives up nothing.
pub proof fn law_every_shared_publication_ends_once(h: BlockHistory, n: u64)
    requires
        h.valid(),
    ensures
        ({
            let kinds = h.all_records() + closing_kinds(h.now(), false) + closing_kinds(
                h.now(),
                true,
            );
            &&& times_published(kinds, n) == once(1 <= n <= word(h.now(), 32))
            &&& times_ended(kinds, n) == times_published(kinds, n)
            &&& times_ended(closing_kinds(h.now(), true), n) == times_visible(h.now(), n, 3)
            &&& closing_kinds(h.now(), false).len() == 0
        }),
{
    let s = h.now();
    let k = h.steps.len() as int;
    law_shared_publications_wait_or_have_ended(h, k, n);
    lemma_closed(s, 3, n);
    lemma_nothing_published(ready_numbers(s, 3), DiscardReason::MappingClosed, n);
    assert(h.all_records() + closing_kinds(s, false) =~= h.all_records());
    lemma_times_add(h.all_records(), closing_kinds(s, true), n);
}

/// Publishing a frame is claiming a slot and filling it, with nothing in between, and is
/// written down as these two steps are. Where no number is left, a slot is claimed and
/// painted. Any other attempt leaves the block as it was.
pub proof fn law_publishing_is_claiming_and_filling(
    map: SharedFrameMap,
    s: Seq<u8>,
    t: Seq<u8>,
    pixels: Seq<u8>,
    timing: FrameTiming,
    allocation: Option<FrameAllocation>,
    marker: Result<Marker, DecodeError>,
    r: Result<Option<SharedPublication>, SharedError>,
)
    requires
        map.fits(s),
        map.publishes(s, t, pixels, timing, allocation, r),
    ensures
        match r {
            Ok(Some(made)) => {
                let claim = BlockStep::Claim(
                    SharedClaim { index: made.index, discarded: made.discarded },
                );
                let fill = BlockStep::Fill {
                    index: made.index as int,
                    number: made.sequence,
                    pixels,
                    timing,
                    allocation,
                    marker,
                };
                let claimed = with_state(s, made.index as int, WRITING);
                &&& claim.leads(map, s, claimed)
                &&& fill.leads(map, claimed, t)
                &&& publication_kinds(made.sequence, made.discarded, allocation, marker)
                    == claim.kinds(s) + fill.kinds(claimed)
            },
            Err(SharedError::SequenceExhausted) => exists|claim: SharedClaim, claimed: Seq<u8>|
                #[trigger] BlockStep::Claim(claim).leads(map, s, claimed) && BlockStep::Paint {
                    index: claim.index as int,
                    pixels,
                }.leads(map, claimed, t),
            _ => t == s,
        },
{
    broadcast use group_block;

    match r {
        Ok(Some(made)) => {
            let claim = BlockStep::Claim(
                SharedClaim { index: made.index, discarded: made.discarded },
            );
            let fill = BlockStep::Fill {
                index: made.index as int,
                number: made.sequence,
                pixels,
                timing,
                allocation,
                marker,
            };
            let claimed = with_state(s, made.index as int, WRITING);
            assert(word(claimed, 32) == word(s, 32));
            assert(publication_kinds(made.sequence, made.discarded, allocation, marker)
                =~= claim.kinds(s) + fill.kinds(claimed));
        },
        Err(SharedError::SequenceExhausted) => {
            let i = choose|i: int|
                0 <= i < 3 && (first_free(s, i) || oldest_ready(s, i)) && t == #[trigger] with_bytes(
                    with_state(s, i, WRITING),
                    map.pixels_at(i),
                    pixels,
                );
            let claim = SharedClaim {
                index: i as usize,
                discarded: if first_free(s, i) {
                    None
                } else {
                    Some(slot_number(s, i))
                },
            };
            let claimed = with_state(s, i, WRITING);
            assert(BlockStep::Claim(claim).leads(map, s, claimed));
        },
        _ => {},
    }
}

/// Taking a frame is owning its slot and releasing it, with nothing in between, and is
/// written down as these two steps are.
pub proof fn law_taking_is_owning_and_releasing(map: SharedFrameMap, s: Seq<u8>, n: int)
    requires
        map.fits(s),
        newest_ready(s, n),
    ensures
        ({
            let selection = SharedSelection { index: n as usize, sequence: slot_number(s, n) };
            let own = BlockStep::Own(selection);
            let release = BlockStep::Release(selection);
            let owned = with_state(s, n, READING);
            let freed = with_state(owned, n, FREE);
            &&& own.leads(map, s, owned)
            &&& release.leads(map, owned, without_older(freed, n, selection.sequence, 3))
            &&& selection_kinds(
                selection.sequence,
                older_numbers(freed, n, selection.sequence, 3),
            ) == own.kinds(s) + release.kinds(owned)
        }),
{
}

} // verus!
