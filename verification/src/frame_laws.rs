//! What handing frames over is for, and how the memory between two processes is laid out.
use vstd::prelude::*;

use crate::broker_client::CapabilitySet;
use crate::bytes::le_value;
use crate::events::{DiscardReason, EventKind, FrameAllocation, Operation, Phase};
use crate::fake_touch_bar::{
    due, key_actions, missing_after, not_due, remembered, remembered_all, tapped, tapped_all,
    FakeAction, FakeError, FakeKey, FakeKeyEvent, ScheduledEvent,
};
use crate::frame_records::{all_given_up, claim_kinds, publication_kinds, selection_kinds};
use crate::frame_slots::{
    dimension_error, ended_with, law_waiting_publications_differ, Disposition, FrameError,
    FrameSlots, FrameTiming, SlotState,
};
use crate::hardware::{
    HardwareCapability, HardwareEvent, KeyboardKey, Modifier, OutputKey, SyntheticKeyEvent,
};
use crate::marker::{DecodeError, Marker};
use crate::shared_frames::{
    block_error, block_map, first_free, half, magic, newest_ready, none_in, older_numbers,
    oldest_ready, ready_numbers, slot_allocation, slot_at, slot_number, slot_state, slot_timing,
    with_state, word, SharedError, SharedFrameMap, SharedPublication, FREE, READING, READY,
    RECLAIMING, WRITING,
};

verus! {

/// Frames can be held exactly where they have pixels, a row holds four bytes for each
/// pixel, and a whole frame fits the machine. What is wrong first is named.
pub proof fn law_a_frame_has_whole_rows(width: usize, height: usize, stride: usize)
    requires
        width * 4 <= usize::MAX,
    ensures
        dimension_error(width, height, stride) is None <==> width > 0 && height > 0 && stride
            >= width * 4 && stride * height <= usize::MAX,
        width == 0 ==> dimension_error(width, height, stride) == Some(FrameError::Width),
        width > 0 && height == 0 ==> dimension_error(width, height, stride) == Some(
            FrameError::Height,
        ),
        width > 0 && height > 0 && stride < width * 4 ==> dimension_error(width, height, stride)
            == Some(FrameError::Stride),
{
}

/// The newest visible frame is newer than every other one, and the oldest is older.
pub proof fn law_newest_and_oldest_are_told_by_their_numbers(slots: FrameSlots, i: int, j: int)
    requires
        slots.wf(),
        0 <= i < 3,
        0 <= j < 3,
        i != j,
        slots.state(i) == SlotState::Ready,
        slots.state(j) == SlotState::Ready,
    ensures
        slots.sequence(i) != slots.sequence(j),
        slots.newest_ready(i) ==> slots.sequence(j) < slots.sequence(i),
        slots.oldest_ready(i) ==> slots.sequence(i) < slots.sequence(j),
        slots.newest_ready(i) ==> !slots.newest_ready(j) && !slots.oldest_ready(i),
{
    law_waiting_publications_differ(slots, i, j);
}

proof fn lemma_other_ready(slots: FrameSlots, n: int, k: int, number: u64)
    requires
        0 <= k <= 3,
    ensures
        slots.other_ready_numbers(n, k).contains(number) <==> exists|j: int|
            0 <= j < k && j != n && #[trigger] slots.state(j) == SlotState::Ready && slots.sequence(
                j,
            ) == number,
    decreases k,
{
    if k > 0 {
        lemma_other_ready(slots, n, k - 1, number);
        let before = slots.other_ready_numbers(n, k - 1);
        let all = slots.other_ready_numbers(n, k);
        if k - 1 != n && slots.state(k - 1) == SlotState::Ready {
            assert(all == before.push(slots.sequence(k - 1)));
            assert(all[before.len() as int] == slots.sequence(k - 1));
            if before.contains(number) {
                let i = before.index_of(number);
                assert(all[i] == number);
            }
            if all.contains(number) && !before.contains(number) {
                let i = all.index_of(number);
                assert(i < before.len() ==> before[i] == number);
                assert(slots.sequence(k - 1) == number);
            }
        }
    }
}

/// What is given up for a frame that is taken is every other visible frame, and nothing
/// else.
pub proof fn law_every_other_visible_frame_is_given_up(slots: FrameSlots, n: int, number: u64)
    ensures
        slots.other_ready_numbers(n, 3).contains(number) <==> exists|j: int|
            0 <= j < 3 && j != n && #[trigger] slots.state(j) == SlotState::Ready && slots.sequence(
                j,
            ) == number,
{
    lemma_other_ready(slots, n, 3, number);
}

proof fn lemma_ready(slots: FrameSlots, k: int, number: u64)
    requires
        0 <= k <= 3,
    ensures
        slots.ready_numbers(k).contains(number) <==> exists|j: int|
            0 <= j < k && #[trigger] slots.state(j) == SlotState::Ready && slots.sequence(j)
                == number,
    decreases k,
{
    if k > 0 {
        lemma_ready(slots, k - 1, number);
        let before = slots.ready_numbers(k - 1);
        let all = slots.ready_numbers(k);
        if slots.state(k - 1) == SlotState::Ready {
            assert(all == before.push(slots.sequence(k - 1)));
            assert(all[before.len() as int] == slots.sequence(k - 1));
            if before.contains(number) {
                let i = before.index_of(number);
                assert(all[i] == number);
            }
            if all.contains(number) && !before.contains(number) {
                let i = all.index_of(number);
                assert(i < before.len() ==> before[i] == number);
                assert(slots.sequence(k - 1) == number);
            }
        }
    }
}

/// What is given up when the slots are closed is every visible frame, and nothing else.
pub proof fn law_closing_gives_up_every_visible_frame(slots: FrameSlots, number: u64)
    ensures
        slots.ready_numbers(3).contains(number) <==> exists|j: int|
            0 <= j < 3 && #[trigger] slots.state(j) == SlotState::Ready && slots.sequence(j)
                == number,
{
    lemma_ready(slots, 3, number);
}

/// Publications that end together end in the same way, and the others as they did before.
pub proof fn law_endings_are_added(
    ended: Map<u64, Disposition>,
    numbers: Seq<u64>,
    how: Disposition,
    n: u64,
)
    ensures
        numbers.contains(n) ==> ended_with(ended, numbers, how).dom().contains(n) && ended_with(
            ended,
            numbers,
            how,
        )[n] == how,
        !numbers.contains(n) ==> ended_with(ended, numbers, how).dom().contains(n)
            == ended.dom().contains(n) && (ended.dom().contains(n) ==> ended_with(
            ended,
            numbers,
            how,
        )[n] == ended[n]),
    decreases numbers.len(),
{
    if numbers.len() > 0 {
        let less = numbers.drop_last();
        law_endings_are_added(ended, less, how, n);
        if less.contains(n) {
            let i = less.index_of(n);
            assert(numbers[i] == n);
        }
        if numbers.contains(n) && numbers.last() != n {
            let i = numbers.index_of(n);
            assert(less[i] == n);
        }
        assert(numbers[numbers.len() - 1] == numbers.last());
    }
}

/// The block starts with eight letters, the width, the height, the stride and the bytes of
/// a frame, each in four bytes; behind its header and three slots of sixty-four bytes come
/// the pixels of the three frames.
pub proof fn law_a_block_is_laid_out_in_order(map: SharedFrameMap, s: Seq<u8>, i: int)
    requires
        0 <= i < 3,
    ensures
        magic() == seq![0x53u8, 0x4c, 0x56, 0x52, 0x46, 0x52, 0x4d, 0x32],
        FREE == 0 && WRITING == 1 && READY == 2 && READING == 3 && RECLAIMING == 4,
        slot_state(s, i) == s[128 + 64 * i],
        slot_number(s, i) == word(s, 136 + 64 * i),
        slot_timing(s, i).presentation_time.bits == word(s, 144 + 64 * i),
        slot_timing(s, i).delta.bits == word(s, 152 + 64 * i),
        slot_allocation(s, i) matches Ok(Some(a)) ==> word(s, 160 + 64 * i) == 1 && a.id == word(
            s,
            168 + 64 * i,
        ) && a.token == word(s, 176 + 64 * i) && a.allocated_ns == word(s, 184 + 64 * i),
        slot_allocation(s, i) matches Ok(None) ==> word(s, 160 + 64 * i) == 0,
        map.slot_pixels(s, i) == s.subrange(
            320 + i * map.slot_bytes,
            320 + i * map.slot_bytes + map.slot_bytes,
        ),
        map.fits(s) <==> s.len() == 320 + 3 * map.slot_bytes,
        block_map(s).width == half(s, 8) as usize,
        block_map(s).height == half(s, 12) as usize,
        block_map(s).stride == half(s, 16) as usize,
        block_map(s).slot_bytes == half(s, 20) as usize,
{
}

/// A word is eight bytes and half a word four, with the lowest byte first.
pub proof fn law_words_of_a_block_have_the_lowest_byte_first(s: Seq<u8>, off: int)
    requires
        0 <= off,
        off + 8 <= s.len(),
    ensures
        half(s, off) == s[off] + 0x100 * s[off + 1] + 0x1_0000 * s[off + 2] + 0x100_0000 * s[off
            + 3],
        word(s, off) == half(s, off) + 0x1_0000_0000 * half(s, off + 4),
{
    reveal(word);
    reveal_with_fuel(le_value, 9);
    let four = s.subrange(off, off + 4);
    assert(four.drop_first() =~= s.subrange(off + 1, off + 4));
    assert(four.drop_first().drop_first() =~= s.subrange(off + 2, off + 4));
    assert(four.drop_first().drop_first().drop_first() =~= s.subrange(off + 3, off + 4));
    assert(s.subrange(off + 3, off + 4).drop_first() =~= Seq::<u8>::empty());
    assert(le_value(four) == s[off] + 0x100 * s[off + 1] + 0x1_0000 * s[off + 2] + 0x100_0000
        * s[off + 3]);
    let high = s.subrange(off + 4, off + 8);
    assert(high.drop_first() =~= s.subrange(off + 5, off + 8));
    assert(high.drop_first().drop_first() =~= s.subrange(off + 6, off + 8));
    assert(high.drop_first().drop_first().drop_first() =~= s.subrange(off + 7, off + 8));
    assert(s.subrange(off + 7, off + 8).drop_first() =~= Seq::<u8>::empty());
    assert(le_value(high) == s[off + 4] + 0x100 * s[off + 5] + 0x1_0000 * s[off + 6]
        + 0x100_0000 * s[off + 7]);
    let all = s.subrange(off, off + 8);
    assert(all.drop_first() =~= s.subrange(off + 1, off + 8));
    assert(all.drop_first().drop_first() =~= s.subrange(off + 2, off + 8));
    assert(all.drop_first().drop_first().drop_first() =~= s.subrange(off + 3, off + 8));
    assert(all.drop_first().drop_first().drop_first().drop_first() =~= high);
    assert(le_value(all) == le_value(four) + 0x1_0000_0000 * le_value(high));
}

/// A block is accepted exactly where it is long enough for its slots, starts with the right
/// letters, has rows that hold their pixels, and is as long as its three frames need.
pub proof fn law_a_block_is_accepted_where_it_adds_up(s: Seq<u8>)
    ensures
        block_error(s) is None <==> {
            &&& s.len() >= 320
            &&& s.subrange(0, 8) == seq![0x53u8, 0x4c, 0x56, 0x52, 0x46, 0x52, 0x4d, 0x32]
            &&& half(s, 8) > 0
            &&& half(s, 12) > 0
            &&& half(s, 16) >= half(s, 8) * 4
            &&& half(s, 20) == half(s, 16) * half(s, 12)
            &&& s.len() == 320 + 3 * half(s, 20)
        },
{
}

/// In the block, the newest visible frame has no newer one beside it, and the oldest no
/// older one.
pub proof fn law_newest_and_oldest_in_the_block(s: Seq<u8>, i: int, j: int)
    requires
        0 <= i < 3,
        0 <= j < 3,
        slot_state(s, j) == 2,
    ensures
        newest_ready(s, i) ==> slot_number(s, j) <= slot_number(s, i) && slot_state(s, i) == 2,
        oldest_ready(s, i) ==> slot_number(s, i) <= slot_number(s, j) && slot_state(s, i) == 2,
        newest_ready(s, i) && newest_ready(s, j) ==> i == j,
        oldest_ready(s, i) && oldest_ready(s, j) ==> i == j,
        !none_in(s, READY),
{
}

proof fn lemma_older(s: Seq<u8>, n: int, number: u64, k: int, m: u64)
    requires
        0 <= k <= 3,
    ensures
        older_numbers(s, n, number, k).contains(m) <==> exists|j: int|
            0 <= j < k && j != n && #[trigger] slot_state(s, j) == 2 && slot_number(s, j) == m && m
                < number,
    decreases k,
{
    if k > 0 {
        lemma_older(s, n, number, k - 1, m);
        let before = older_numbers(s, n, number, k - 1);
        let all = older_numbers(s, n, number, k);
        if k - 1 != n && slot_state(s, k - 1) == READY && slot_number(s, k - 1) < number {
            assert(all == before.push(slot_number(s, k - 1)));
            assert(all[before.len() as int] == slot_number(s, k - 1));
            if before.contains(m) {
                let i = before.index_of(m);
                assert(all[i] == m);
            }
            if all.contains(m) && !before.contains(m) {
                let i = all.index_of(m);
                assert(i < before.len() ==> before[i] == m);
                assert(slot_number(s, k - 1) == m);
            }
        }
    }
}

/// In the block, what is given up for a frame that is read is every visible frame that is
/// older, and nothing else.
pub proof fn law_older_frames_of_the_block_are_given_up(s: Seq<u8>, n: int, number: u64, m: u64)
    ensures
        older_numbers(s, n, number, 3).contains(m) <==> exists|j: int|
            0 <= j < 3 && j != n && #[trigger] slot_state(s, j) == 2 && slot_number(s, j) == m && m
                < number,
{
    lemma_older(s, n, number, 3, m);
}

proof fn lemma_ready_in_block(s: Seq<u8>, k: int, m: u64)
    requires
        0 <= k <= 3,
    ensures
        ready_numbers(s, k).contains(m) <==> exists|j: int|
            0 <= j < k && #[trigger] slot_state(s, j) == 2 && slot_number(s, j) == m,
    decreases k,
{
    if k > 0 {
        lemma_ready_in_block(s, k - 1, m);
        let before = ready_numbers(s, k - 1);
        let all = ready_numbers(s, k);
        if slot_state(s, k - 1) == READY {
            assert(all == before.push(slot_number(s, k - 1)));
            assert(all[before.len() as int] == slot_number(s, k - 1));
            if before.contains(m) {
                let i = before.index_of(m);
                assert(all[i] == m);
            }
            if all.contains(m) && !before.contains(m) {
                let i = all.index_of(m);
                assert(i < before.len() ==> before[i] == m);
                assert(slot_number(s, k - 1) == m);
            }
        }
    }
}

/// What is given up when the block is closed is every visible frame, and nothing else.
pub proof fn law_closing_the_block_gives_up_every_visible_frame(s: Seq<u8>, m: u64)
    ensures
        ready_numbers(s, 3).contains(m) <==> exists|j: int|
            0 <= j < 3 && #[trigger] slot_state(s, j) == 2 && slot_number(s, j) == m,
{
    lemma_ready_in_block(s, 3, m);
}

/// The state of one slot changes alone.
pub proof fn law_one_slot_changes_its_state(s: Seq<u8>, i: int, state: u8, k: int)
    requires
        0 <= i < 3,
        s.len() >= 320,
        0 <= k < s.len(),
    ensures
        with_state(s, i, state).len() == s.len(),
        with_state(s, i, state)[k] == (if k == 128 + 64 * i { state } else { s[k] }),
{
}

/// A frame that is refused is one whose time or pace is not a finite number from zero on,
/// that has no number, or whose allocation does not add up.
pub proof fn law_a_frame_of_the_block_is_refused_by_its_words(
    map: SharedFrameMap,
    s: Seq<u8>,
    i: int,
    number: u64,
)
    ensures
        map.slot_error(s, i, number) is None <==> {
            &&& slot_timing(s, i).presentation_time.finite()
            &&& slot_timing(s, i).presentation_time.non_negative()
            &&& slot_timing(s, i).delta.finite()
            &&& slot_timing(s, i).delta.non_negative()
            &&& number != 0
            &&& slot_allocation(s, i) is Ok
        },
        slot_allocation(s, i) is Ok <==> ({
            let at = slot_at(i);
            ||| word(s, at + 32) == 0 && word(s, at + 40) == 0 && word(s, at + 48) == 0 && word(
                s,
                at + 56,
            ) == 0
            ||| word(s, at + 32) == 1 && 1 <= word(s, at + 40) <= 0x7fff_ffff_ffff_ffff && word(
                s,
                at + 48,
            ) <= 0x7fff_ffff_ffff_ffff && 1 <= word(s, at + 56) <= 0x7fff_ffff_ffff_ffff
        }),
{
}

/// An allocation counts where its identity and its time are above zero and all three of its
/// numbers fit a signed integer.
pub proof fn law_an_allocation_is_in_range(a: FrameAllocation)
    ensures
        a.valid() <==> 1 <= a.id <= 0x7fff_ffff_ffff_ffff && a.token <= 0x7fff_ffff_ffff_ffff && 1
            <= a.allocated_ns <= 0x7fff_ffff_ffff_ffff,
{
}

/// What is written down of a claim, a publication, a frame that was taken and of closing
/// names every publication that was given up once, with the reason: it was reclaimed for
/// the claim, superseded by the one that was taken, or left when the slots were closed.
pub proof fn law_every_frame_that_is_given_up_is_written_down(
    sequence: u64,
    given_up: Option<u64>,
    numbers: Seq<u64>,
    reason: DiscardReason,
    allocation: Option<FrameAllocation>,
    marker: Result<Marker, DecodeError>,
    i: int,
)
    requires
        0 <= i < numbers.len(),
    ensures
        given_up matches Some(n) ==> claim_kinds(given_up) == seq![
            EventKind::Discarded { sequence: n, reason: DiscardReason::ProducerReclaim },
        ],
        given_up is None ==> claim_kinds(given_up) == Seq::<EventKind>::empty(),
        publication_kinds(sequence, given_up, allocation, marker) == claim_kinds(given_up) + seq![
            EventKind::Published { sequence, allocation, marker },
        ],
        selection_kinds(sequence, numbers).len() == numbers.len() + 1,
        selection_kinds(sequence, numbers)[0] == (EventKind::Selected { sequence }),
        selection_kinds(sequence, numbers)[i + 1] == (EventKind::Discarded {
            sequence: numbers[i],
            reason: DiscardReason::ConsumerSuperseded,
        }),
        all_given_up(numbers, reason).len() == numbers.len(),
        all_given_up(numbers, reason)[i] == (EventKind::Discarded { sequence: numbers[i], reason }),
        selection_kinds(sequence, Seq::empty()) == seq![EventKind::Selected { sequence }],
{
    assert(publication_kinds(sequence, given_up, allocation, marker) =~= claim_kinds(given_up)
        + seq![EventKind::Published { sequence, allocation, marker }]);
    assert(selection_kinds(sequence, Seq::empty()) =~= seq![EventKind::Selected { sequence }]);
}

/// A script sees the phases of a run under their names.
pub proof fn law_phases_have_their_names()
    ensures
        Phase::Warmup.text() == "warmup"@,
        Phase::Quiescing.text() == "quiescing"@,
        Phase::Armed.text() == "armed"@,
        Phase::Measured.text() == "measured"@,
        Phase::Drain.text() == "drain"@,
        Phase::Ended.text() == "ended"@,
{
}

/// The operations that a broker source observes are numbered in order.
pub proof fn law_operations_are_numbered()
    ensures
        Operation::Claim.code() == 0,
        Operation::Reacquire.code() == 1,
        Operation::ConfirmOwner.code() == 2,
        Operation::EmitKeys.code() == 3,
        Operation::GetBacklight.code() == 4,
        Operation::SetBacklight.code() == 5,
        Operation::Release.code() == 6,
        Operation::PlanIdentity.code() == 7,
        Operation::SourceClosed.code() == 8,
        Operation::SourceAbandoned.code() == 9,
        Operation::AfterClose.code() == 10,
{
}

/// An event that was put in for a poll is given at that poll, behind those that were put in
/// for it before, and is kept for later at any other poll.
pub proof fn law_a_scheduled_event_comes_at_its_poll(
    scheduled: Seq<ScheduledEvent>,
    event: HardwareEvent,
    at: u64,
    poll: u64,
)
    ensures
        ({
            let more = scheduled.push(ScheduledEvent { poll: at, event });
            &&& poll == at ==> due(more, poll) == due(scheduled, poll).push(event) && not_due(
                more,
                poll,
            ) == not_due(scheduled, poll)
            &&& poll != at ==> due(more, poll) == due(scheduled, poll) && not_due(more, poll)
                == not_due(scheduled, poll).push(ScheduledEvent { poll: at, event })
        }),
        due(Seq::empty(), poll) == Seq::<HardwareEvent>::empty(),
        not_due(Seq::empty(), poll) == Seq::<ScheduledEvent>::empty(),
{
    let more = scheduled.push(ScheduledEvent { poll: at, event });
    assert(more.drop_last() =~= scheduled);
}

/// A part of the Touch Bar in memory is missing where the last event about it said so.
pub proof fn law_a_part_in_memory_is_missing_where_it_was_last_said_to_be(
    missing: CapabilitySet,
    events: Seq<HardwareEvent>,
    capability: HardwareCapability,
    present: bool,
)
    ensures
        ({
            let before = missing_after(missing, events);
            let after = missing_after(
                missing,
                events.push(HardwareEvent::Capability { capability, present }),
            );
            &&& capability is Display ==> after.display == !present && after.backlight
                == before.backlight
            &&& capability is Backlight ==> after.backlight == !present && after.display
                == before.display
        }),
        missing_after(missing, Seq::empty()) == missing,
{
    assert(events.push(HardwareEvent::Capability { capability, present }).drop_last() =~= events);
}

/// A key that was pressed or released is remembered as it is. In a function-key tap the
/// modifiers are remembered as modifiers, each as its own, and any other key as the
/// function key.
pub proof fn law_keys_are_remembered_as_they_are(event: SyntheticKeyEvent, index: usize)
    ensures
        remembered(event).active == event.active,
        event.key matches OutputKey::Keyboard(key) ==> remembered(event).key == FakeKey::Keyboard(
            key,
        ),
        event.key matches OutputKey::Consumer(key) ==> remembered(event).key == FakeKey::Consumer(
            key,
        ),
        tapped(event, index).active == event.active,
        event.key matches OutputKey::Keyboard(key) ==> (tapped(event, index).key == (match key {
            KeyboardKey::LeftCtrl => FakeKey::Modifier(Modifier::LeftCtrl),
            KeyboardKey::RightCtrl => FakeKey::Modifier(Modifier::RightCtrl),
            KeyboardKey::LeftAlt => FakeKey::Modifier(Modifier::LeftAlt),
            KeyboardKey::RightAlt => FakeKey::Modifier(Modifier::RightAlt),
            KeyboardKey::LeftShift => FakeKey::Modifier(Modifier::LeftShift),
            KeyboardKey::RightShift => FakeKey::Modifier(Modifier::RightShift),
            KeyboardKey::LeftSuper => FakeKey::Modifier(Modifier::LeftSuper),
            KeyboardKey::RightSuper => FakeKey::Modifier(Modifier::RightSuper),
            _ => FakeKey::Function(index),
        })),
        event.key is Consumer ==> tapped(event, index).key == FakeKey::Function(index),
{
}

/// The Touch Bar in memory refuses with these words.
pub proof fn law_the_touch_bar_in_memory_says_why()
    ensures
        FakeError::AlreadyClaimed.text() == "fake Touch Bar is already claimed"@,
        FakeError::NotClaimed.text() == "fake Touch Bar is not claimed"@,
        FakeError::BacklightOutOfRange.text() == "backlight level must be between 0.0 and 1.0"@,
        FakeError::FunctionKeyOutOfRange.text() == "function-key index is out of range"@,
        HardwareCapability::Display.text() == "display"@,
        HardwareCapability::Backlight.text() == "backlight"@,
{
}

/// A claim takes the first free slot and gives nothing up, or without a free one the slot of
/// the oldest visible frame, which ends as reclaimed. The other slots stay as they were.
pub proof fn law_a_claim_gives_up_the_oldest_frame_at_most(
    after: FrameSlots,
    before: FrameSlots,
    i: int,
    discarded: Option<u64>,
    j: int,
)
    requires
        after.claimed_from(before, i, discarded),
        0 <= j < 3,
    ensures
        0 <= i < 3,
        discarded is None ==> before.state(i) is Free && (j < i ==> !(before.state(j) is Free))
            && after.ended() == before.ended(),
        discarded matches Some(n) ==> {
            &&& before.state(i) is Ready
            &&& n == before.sequence(i)
            &&& !(before.state(j) is Free)
            &&& before.state(j) is Ready ==> n <= before.sequence(j)
            &&& after.ended() == before.ended().insert(
                n,
                Disposition::Discarded(DiscardReason::ProducerReclaim),
            )
        },
        j != i ==> {
            &&& after.state(j) == before.state(j)
            &&& after.sequence(j) == before.sequence(j)
            &&& after.meta(j) == before.meta(j)
            &&& after.pixels(j) == before.pixels(j)
        },
{
    assert(before.state(j) == before.state(j));
    if j != i {
        assert(after.same_slot(before, j));
    }
}

/// When a frame is taken, a slot with another visible frame becomes free, and any other slot
/// stays as it was. A frame waits in a slot while it is visible or held for inspection.
pub proof fn law_a_superseded_slot_becomes_free(after: FrameSlots, before: FrameSlots, i: int)
    ensures
        after.superseded(before, i) ==> {
            &&& before.state(i) is Ready ==> after.state(i) is Free
            &&& !(before.state(i) is Ready) ==> after.state(i) == before.state(i)
            &&& after.sequence(i) == before.sequence(i)
            &&& after.meta(i) == before.meta(i)
            &&& after.pixels(i) == before.pixels(i)
        },
        before.waiting(i) <==> before.state(i) is Ready || before.state(i) is Reclaiming,
        after.same_frame(before) ==> after.dimensions() == before.dimensions()
            && after.frame_bytes() == before.frame_bytes() && after.published()
            == before.published(),
{
}

/// A publication in the block has the number behind the last one. It takes the first free
/// slot and gives nothing up, or without a free one the slot of the oldest visible frame. It
/// is blocked exactly where every slot is being written or read.
pub proof fn law_a_publication_in_the_block_gives_up_the_oldest_frame_at_most(
    map: SharedFrameMap,
    s: Seq<u8>,
    t: Seq<u8>,
    pixels: Seq<u8>,
    timing: FrameTiming,
    allocation: Option<FrameAllocation>,
    r: Result<Option<SharedPublication>, SharedError>,
    j: int,
)
    requires
        map.publishes(s, t, pixels, timing, allocation, r),
        0 <= j < 3,
    ensures
        r matches Ok(Some(made)) ==> {
            let i = made.index as int;
            &&& made.sequence == word(s, 32) + 1
            &&& 0 <= i < 3
            &&& pixels.len() == map.slot_bytes
            &&& made.discarded is None ==> slot_state(s, i) == 0 && (j < i ==> slot_state(s, j) != 0)
            &&& made.discarded matches Some(n) ==> slot_state(s, i) == 2 && n == slot_number(s, i)
                && slot_state(s, j) != 0 && (slot_state(s, j) == 2 ==> n <= slot_number(s, j))
        },
        r matches Ok(None) ==> slot_state(s, j) != 0 && slot_state(s, j) != 2 && t == s,
        r is Err ==> pixels.len() != map.slot_bytes || word(s, 32) == u64::MAX,
        pixels.len() != map.slot_bytes ==> r == Err::<Option<SharedPublication>, SharedError>(
            SharedError::Pixels,
        ) && t == s,
{
    assert(slot_state(s, j) == slot_state(s, j));
    if slot_state(s, j) == 0 || slot_state(s, j) == 2 {
        assert(!(none_in(s, FREE) && none_in(s, READY)));
    }
}

/// Keys that were pressed and released are remembered one by one, in order.
pub proof fn law_keys_are_remembered_in_order(
    events: Seq<SyntheticKeyEvent>,
    keys: Seq<FakeKeyEvent>,
    index: usize,
    i: int,
)
    ensures
        remembered_all(events).len() == events.len(),
        0 <= i < events.len() ==> remembered_all(events)[i] == remembered(events[i]),
        tapped_all(events, index).len() == events.len(),
        0 <= i < events.len() ==> tapped_all(events, index)[i] == tapped(events[i], index),
        key_actions(keys).len() == keys.len(),
        0 <= i < keys.len() ==> key_actions(keys)[i] == FakeAction::SyntheticKey(keys[i]),
{
}

/// A complete frame is published wherever a slot is free or holds a visible frame and there
/// is a number left, and only there.
pub proof fn law_a_frame_is_published_where_it_may_be(
    map: SharedFrameMap,
    s: Seq<u8>,
    t: Seq<u8>,
    pixels: Seq<u8>,
    timing: FrameTiming,
    allocation: Option<FrameAllocation>,
    r: Result<Option<SharedPublication>, SharedError>,
)
    requires
        map.publishes(s, t, pixels, timing, allocation, r),
        pixels.len() == map.slot_bytes,
        word(s, 32) < u64::MAX,
    ensures
        (exists|j: int| 0 <= j < 3 && (#[trigger] slot_state(s, j) == 0 || slot_state(s, j) == 2))
            <==> (r matches Ok(Some(_))),
{
    if none_in(s, FREE) && none_in(s, READY) {
        assert forall|j: int| 0 <= j < 3 implies #[trigger] slot_state(s, j) != 0 && slot_state(
            s,
            j,
        ) != 2 by {}
    } else if none_in(s, FREE) {
        let j = choose|j: int| 0 <= j < 3 && #[trigger] slot_state(s, j) == READY;
        assert(slot_state(s, j) == 2);
    } else {
        let j = choose|j: int| 0 <= j < 3 && #[trigger] slot_state(s, j) == FREE;
        assert(slot_state(s, j) == 0);
    }
}

/// A timing counts where both of its numbers are finite and at least zero.
pub proof fn law_a_timing_is_finite(timing: FrameTiming)
    ensures
        timing.valid() <==> timing.presentation_time.finite()
            && timing.presentation_time.non_negative() && timing.delta.finite()
            && timing.delta.non_negative(),
{
}

/// The newest and the oldest visible frame, the first free slot, and that no slot is in some
/// state, are told from the three slots alone, and what is not visible does not count.
pub proof fn law_slots_are_told_from_the_three_of_them(slots: FrameSlots, i: int, state: SlotState)
    ensures
        ({
            let older = |j: int| slots.state(j) is Ready ==> slots.sequence(j) <= slots.sequence(i);
            let newer = |j: int| slots.state(j) is Ready ==> slots.sequence(i) <= slots.sequence(j);
            &&& slots.newest_ready(i) <==> 0 <= i <= 2 && slots.state(i) is Ready && older(0)
                && older(1) && older(2)
            &&& slots.oldest_ready(i) <==> 0 <= i <= 2 && slots.state(i) is Ready && newer(0)
                && newer(1) && newer(2)
        }),
        slots.none_in(state) <==> slots.state(0) != state && slots.state(1) != state
            && slots.state(2) != state,
        slots.first_free(0) <==> slots.state(0) is Free,
        slots.first_free(1) <==> slots.state(1) is Free && !(slots.state(0) is Free),
        slots.first_free(2) <==> slots.state(2) is Free && !(slots.state(0) is Free) && !(
        slots.state(1) is Free),
        i < 0 || i > 2 ==> !slots.first_free(i),
{
}

/// In the block, too, the slots are told from the three of them. Of several with the same
/// number the newest is the last and the oldest the first.
pub proof fn law_slots_of_the_block_are_told_from_the_three_of_them(s: Seq<u8>, i: int, state: u8)
    ensures
        ({
            let older = |j: int|
                slot_state(s, j) == 2 ==> slot_number(s, j) < slot_number(s, i) || (slot_number(s, j)
                    == slot_number(s, i) && j <= i);
            let newer = |j: int|
                slot_state(s, j) == 2 ==> slot_number(s, i) < slot_number(s, j) || (slot_number(s, i)
                    == slot_number(s, j) && i <= j);
            &&& newest_ready(s, i) <==> 0 <= i <= 2 && slot_state(s, i) == 2 && older(0) && older(1)
                && older(2)
            &&& oldest_ready(s, i) <==> 0 <= i <= 2 && slot_state(s, i) == 2 && newer(0) && newer(1)
                && newer(2)
        }),
        none_in(s, state) <==> slot_state(s, 0) != state && slot_state(s, 1) != state
            && slot_state(s, 2) != state,
        first_free(s, 0) <==> slot_state(s, 0) == 0,
        first_free(s, 1) <==> slot_state(s, 1) == 0 && slot_state(s, 0) != 0,
        first_free(s, 2) <==> slot_state(s, 2) == 0 && slot_state(s, 0) != 0 && slot_state(s, 1)
            != 0,
        i < 0 || i > 2 ==> !first_free(s, i),
{
}

/// Which of the words of a frame is wrong is told: its time first, its pace next, its number,
/// and its allocation last.
pub proof fn law_a_refused_frame_of_the_block_says_why(
    map: SharedFrameMap,
    s: Seq<u8>,
    i: int,
    number: u64,
)
    ensures
        ({
            let time = slot_timing(s, i).presentation_time;
            let pace = slot_timing(s, i).delta;
            let e = map.slot_error(s, i, number);
            &&& !time.finite() || !time.non_negative() ==> e == Some(
                SharedError::Frame(FrameError::PresentationTime),
            )
            &&& time.finite() && time.non_negative() && (!pace.finite() || !pace.non_negative())
                ==> e == Some(SharedError::Frame(FrameError::Delta))
            &&& slot_timing(s, i).valid() && number == 0 ==> e == Some(SharedError::Sequence)
            &&& slot_timing(s, i).valid() && number != 0 ==> (slot_allocation(s, i) matches Err(why)
                ==> e == Some(why))
        }),
{
}

} // verus!
