//! Handing complete frames from a producer to a consumer through three slots.
//!
//! Each method is one atomic step. A frame becomes visible only once all of its
//! pixels are in its slot; the consumer takes the newest visible frame and frees
//! the slots of older ones. Every publication ends exactly once: it is selected,
//! or discarded for a stated reason.
use vstd::prelude::*;

use crate::bytes::copy_range;
use crate::events::{DiscardReason, FrameAllocation, FrameCorrelation};
use crate::hardware::{FrameView, LogicalFrame, RealBits};

verus! {

/// How many slots there are.
pub const SLOT_COUNT: usize = 3;

/// Why a frame cannot be handed over.
#[derive(Clone, Copy, Debug, PartialEq, Eq, Structural)]
pub enum FrameError {
    PresentationTime,
    Delta,
    Allocation,
    Width,
    Height,
    Stride,
    SlotSize,
    MappingSize,
    Dimensions,
    Pixels,
    PartialPixels,
    SequenceExhausted,
    NoTiming,
}

/// When a frame is meant to be seen, and how long after the one before it.
#[derive(Clone, Copy, Debug, PartialEq, Eq, Structural)]
pub struct FrameTiming {
    pub presentation_time: RealBits,
    pub delta: RealBits,
}

impl FrameTiming {
    /// Both numbers are finite and at least zero.
    pub open spec fn valid(self) -> bool {
        &&& self.presentation_time.finite() && self.presentation_time.non_negative()
        &&& self.delta.finite() && self.delta.non_negative()
    }

    /// A timing of two finite numbers that are at least zero.
    pub fn new(presentation_time: RealBits, delta: RealBits) -> (r: Result<FrameTiming, FrameError>)
        ensures
            r is Ok == (FrameTiming { presentation_time, delta }).valid(),
            r matches Ok(timing) ==> timing == (FrameTiming { presentation_time, delta }),
            r matches Err(e) ==> e == (if presentation_time.finite()
                && presentation_time.non_negative() {
                FrameError::Delta
            } else {
                FrameError::PresentationTime
            }),
    {
        if !presentation_time.is_finite_non_negative() {
            return Err(FrameError::PresentationTime);
        }
        if !delta.is_finite_non_negative() {
            return Err(FrameError::Delta);
        }
        Ok(FrameTiming { presentation_time, delta })
    }
}

/// A complete frame as the consumer gets it.
pub struct CompletedFrame {
    pub width: usize,
    pub height: usize,
    pub stride: usize,
    pub pixels: Vec<u8>,
    pub timing: FrameTiming,
    pub fixture_correlation: Option<FrameCorrelation>,
}

impl CompletedFrame {
    /// The picture and its timing.
    pub fn into_logical(self) -> (r: (LogicalFrame, FrameTiming))
        ensures
            r.0@ == (FrameView {
                width: self.width as int,
                height: self.height as int,
                stride: self.stride as int,
                pixels: self.pixels@,
            }),
            r.0.correlation() == self.fixture_correlation,
            r.1 == self.timing,
    {
        let frame: LogicalFrame = LogicalFrame::from_parts(
            self.width,
            self.height,
            self.stride,
            self.pixels,
        );
        (frame.correlated(self.fixture_correlation), self.timing)
    }
}

/// Whether frames of these dimensions can be held: rows that hold their pixels, and
/// a size that fits the machine.
pub open spec fn dimension_error(width: usize, height: usize, stride: usize) -> Option<FrameError> {
    if width == 0 {
        Some(FrameError::Width)
    } else if height == 0 {
        Some(FrameError::Height)
    } else if stride < (if width * 4 > usize::MAX {
        usize::MAX as int
    } else {
        width * 4
    }) {
        Some(FrameError::Stride)
    } else if stride * height > usize::MAX {
        Some(FrameError::SlotSize)
    } else {
        None
    }
}

/// The bytes of one frame of these dimensions.
pub fn validate_dimensions(width: usize, height: usize, stride: usize) -> (r: Result<
    usize,
    FrameError,
>)
    ensures
        match r {
            Ok(bytes) => dimension_error(width, height, stride) is None && bytes == stride * height,
            Err(e) => dimension_error(width, height, stride) == Some(e),
        },
{
    if width == 0 {
        return Err(FrameError::Width);
    }
    if height == 0 {
        return Err(FrameError::Height);
    }
    let row: usize = match width.checked_mul(4) {
        Some(row) => row,
        None => usize::MAX,
    };
    if stride < row {
        return Err(FrameError::Stride);
    }
    match stride.checked_mul(height) {
        Some(bytes) => Ok(bytes),
        None => Err(FrameError::SlotSize),
    }
}

/// What a slot is being used for.
#[derive(Clone, Copy, Debug, PartialEq, Eq, Structural)]
pub enum SlotState {
    Free,
    Writing,
    Ready,
    Reading,
    Reclaiming,
}

/// How a publication ended.
#[derive(Clone, Copy, Debug, PartialEq, Eq, Structural)]
pub enum Disposition {
    Selected,
    Discarded(DiscardReason),
}

/// What a publication says of its frame.
pub type FrameMeta = Option<(FrameTiming, Option<FrameAllocation>)>;

/// The right to write into one slot.
pub struct FrameWriter {
    index: usize,
}

impl FrameWriter {
    /// The slot that is written.
    pub closed spec fn slot(self) -> int {
        self.index as int
    }
}

/// A slot that was claimed for writing, and the publication that was given up for it.
pub struct Claim {
    pub writer: FrameWriter,
    pub discarded: Option<u64>,
}

/// The frame that a consumer selected.
pub struct Selection {
    index: usize,
    sequence: u64,
}

impl Selection {
    /// The slot that is read.
    pub closed spec fn slot(self) -> int {
        self.index as int
    }

    /// The number of the selected publication.
    pub closed spec fn number(self) -> u64 {
        self.sequence
    }

    /// The number of the selected publication.
    pub fn sequence(&self) -> (n: u64)
        ensures
            n == self.number(),
    {
        self.sequence
    }
}

/// A publication that was made.
pub struct Publication {
    pub sequence: u64,
    pub discarded: Option<u64>,
}

/// A frame that was taken, and the publications that were given up for it.
pub struct Taken {
    pub frame: CompletedFrame,
    pub sequence: u64,
    pub discarded: Vec<u64>,
}

/// Three slots for frames of one size.
pub struct FrameSlots {
    width: usize,
    height: usize,
    stride: usize,
    slot_bytes: usize,
    storage: Vec<u8>,
    states: [SlotState; 3],
    sequences: [u64; 3],
    meta: [FrameMeta; 3],
    next_sequence: u64,
    ledger: Ghost<Map<u64, Disposition>>,
}

impl FrameSlots {
    /// The dimensions of every frame.
    pub closed spec fn dimensions(self) -> (usize, usize, usize) {
        (self.width, self.height, self.stride)
    }

    /// The bytes of every frame.
    pub closed spec fn frame_bytes(self) -> int {
        self.slot_bytes as int
    }

    /// What slot `i` is being used for.
    pub closed spec fn state(self, i: int) -> SlotState {
        self.states@[i]
    }

    /// The publication that slot `i` holds.
    pub closed spec fn sequence(self, i: int) -> u64 {
        self.sequences@[i]
    }

    /// What the publication in slot `i` says of its frame.
    pub closed spec fn meta(self, i: int) -> FrameMeta {
        self.meta@[i]
    }

    /// The bytes in slot `i`.
    pub closed spec fn pixels(self, i: int) -> Seq<u8> {
        self.storage@.subrange(i * self.slot_bytes, i * self.slot_bytes + self.slot_bytes)
    }

    /// How many publications there were.
    pub closed spec fn published(self) -> u64 {
        self.next_sequence
    }

    /// How each publication that no longer waits has ended.
    pub closed spec fn ended(self) -> Map<u64, Disposition> {
        self.ledger@
    }

    /// Slot `i` holds a publication that was neither selected nor discarded.
    pub open spec fn waiting(self, i: int) -> bool {
        self.state(i) == SlotState::Ready || self.state(i) == SlotState::Reclaiming
    }

    /// Publication `n` is in some slot, waiting.
    pub open spec fn waits(self, n: u64) -> bool {
        exists|i: int| 0 <= i < 3 && #[trigger] self.waiting(i) && self.sequence(i) == n
    }

    /// Every publication so far either waits, in one slot, or has ended; none does both.
    pub open spec fn accounted(self) -> bool {
        &&& forall|n: u64|
            #![trigger self.ended().dom().contains(n)]
            #![trigger self.waits(n)]
            (1 <= n <= self.published()) <==> (self.ended().dom().contains(n) || self.waits(n))
        &&& forall|n: u64| #[trigger] self.ended().dom().contains(n) ==> !self.waits(n)
        &&& forall|i: int, j: int|
            0 <= i < 3 && 0 <= j < 3 && i != j && #[trigger] self.waiting(i)
                && #[trigger] self.waiting(j) ==> self.sequence(i) != self.sequence(j)
    }

    pub closed spec fn wf(self) -> bool {
        &&& self.storage@.len() == 3 * self.slot_bytes
        &&& self.slot_bytes == self.stride * self.height
        &&& forall|i: int| 0 <= i < 3 && #[trigger] self.waiting(i) ==> self.meta(i) is Some
        &&& self.accounted()
    }

    /// Slot `i` is the same in every respect.
    pub open spec fn same_slot(self, other: FrameSlots, i: int) -> bool {
        &&& self.state(i) == other.state(i)
        &&& self.sequence(i) == other.sequence(i)
        &&& self.meta(i) == other.meta(i)
        &&& self.pixels(i) == other.pixels(i)
    }

    /// Slot `i` is the same, but for a publication that is given up if it was visible.
    pub open spec fn superseded(self, other: FrameSlots, i: int) -> bool {
        &&& self.state(i) == (if other.state(i) == SlotState::Ready {
            SlotState::Free
        } else {
            other.state(i)
        })
        &&& self.sequence(i) == other.sequence(i)
        &&& self.meta(i) == other.meta(i)
        &&& self.pixels(i) == other.pixels(i)
    }

    /// Slot `i` was claimed for writing, the other slots are the same, and the publication
    /// that was given up for it, if any, ended.
    pub open spec fn claimed_from(self, other: FrameSlots, i: int, discarded: Option<u64>) -> bool {
        &&& 0 <= i < 3
        &&& forall|j: int| 0 <= j < 3 && j != i ==> #[trigger] self.same_slot(other, j)
        &&& match discarded {
            None => other.first_free(i) && self.ended() == other.ended(),
            Some(n) => other.none_in(SlotState::Free) && other.oldest_ready(i) && n
                == other.sequence(i) && self.ended() == other.ended().insert(
                n,
                Disposition::Discarded(DiscardReason::ProducerReclaim),
            ),
        }
    }

    /// The dimensions and the number of publications are the same.
    pub open spec fn same_frame(self, other: FrameSlots) -> bool {
        &&& self.dimensions() == other.dimensions()
        &&& self.frame_bytes() == other.frame_bytes()
        &&& self.published() == other.published()
    }

    /// Slot `i` is the ready one with the lowest number.
    pub open spec fn oldest_ready(self, i: int) -> bool {
        &&& 0 <= i < 3
        &&& self.state(i) == SlotState::Ready
        &&& forall|j: int|
            0 <= j < 3 && #[trigger] self.state(j) == SlotState::Ready ==> self.sequence(i)
                <= self.sequence(j)
    }

    /// Slot `i` is the ready one with the highest number.
    pub open spec fn newest_ready(self, i: int) -> bool {
        &&& 0 <= i < 3
        &&& self.state(i) == SlotState::Ready
        &&& forall|j: int|
            0 <= j < 3 && #[trigger] self.state(j) == SlotState::Ready ==> self.sequence(j)
                <= self.sequence(i)
    }

    /// No slot is in state `s`.
    pub open spec fn none_in(self, s: SlotState) -> bool {
        forall|j: int| 0 <= j < 3 ==> #[trigger] self.state(j) != s
    }

    /// Slot `i` is the first free one.
    pub open spec fn first_free(self, i: int) -> bool {
        &&& 0 <= i < 3
        &&& self.state(i) == SlotState::Free
        &&& forall|j: int| 0 <= j < i ==> #[trigger] self.state(j) != SlotState::Free
    }

    /// Empty slots for frames of these dimensions.
    pub fn new(width: usize, height: usize, stride: usize) -> (r: Result<FrameSlots, FrameError>)
        ensures
            match r {
                Ok(slots) => {
                    &&& dimension_error(width, height, stride) is None
                    &&& stride * height * 3 <= usize::MAX
                    &&& slots.wf()
                    &&& slots.dimensions() == (width, height, stride)
                    &&& slots.frame_bytes() == stride * height
                    &&& slots.published() == 0
                    &&& slots.ended() == Map::<u64, Disposition>::empty()
                    &&& forall|i: int| 0 <= i < 3 ==> #[trigger] slots.state(i) == SlotState::Free
                },
                Err(FrameError::MappingSize) => dimension_error(width, height, stride) is None
                    && stride * height * 3 > usize::MAX,
                Err(e) => dimension_error(width, height, stride) == Some(e),
            },
    {
        let slot_bytes: usize = validate_dimensions(width, height, stride)?;
        let map_bytes: usize = match slot_bytes.checked_mul(3) {
            Some(n) => n,
            None => {
                return Err(FrameError::MappingSize);
            },
        };
        let storage: Vec<u8> = vec![0;map_bytes];
        let slots = FrameSlots {
            width,
            height,
            stride,
            slot_bytes,
            storage,
            states: [SlotState::Free, SlotState::Free, SlotState::Free],
            sequences: [0, 0, 0],
            meta: [None, None, None],
            next_sequence: 0,
            ledger: Ghost(Map::empty()),
        };
        assert(forall|i: int| 0 <= i < 3 ==> #[trigger] slots.state(i) == SlotState::Free);
        Ok(slots)
    }

    /// Refuses a frame of other dimensions, or one that is not complete.
    pub fn validate_frame(&self, width: usize, height: usize, stride: usize, pixels: &[u8]) -> (r:
        Result<(), FrameError>)
        ensures
            r == (if (width, height, stride) != self.dimensions() {
                Err::<(), FrameError>(FrameError::Dimensions)
            } else if pixels@.len() != self.frame_bytes() {
                Err(FrameError::Pixels)
            } else {
                Ok(())
            }),
    {
        if width != self.width || height != self.height || stride != self.stride {
            return Err(FrameError::Dimensions);
        }
        if pixels.len() != self.slot_bytes {
            return Err(FrameError::Pixels);
        }
        Ok(())
    }

    fn free_slot(&self) -> (r: Option<usize>)
        ensures
            match r {
                Some(i) => self.first_free(i as int),
                None => self.none_in(SlotState::Free),
            },
    {
        let mut i: usize = 0;
        while i < 3
            invariant
                i <= 3,
                forall|j: int| 0 <= j < i ==> #[trigger] self.state(j) != SlotState::Free,
            decreases 3 - i,
        {
            if self.states[i] == SlotState::Free {
                return Some(i);
            }
            i += 1;
        }
        None
    }

    fn oldest(&self) -> (r: Option<usize>)
        ensures
            match r {
                Some(i) => self.oldest_ready(i as int),
                None => self.none_in(SlotState::Ready),
            },
    {
        let mut best: Option<usize> = None;
        let mut i: usize = 0;
        while i < 3
            invariant
                i <= 3,
                match best {
                    Some(b) => b < i && self.state(b as int) == SlotState::Ready && forall|j: int|
                        0 <= j < i && #[trigger] self.state(j) == SlotState::Ready ==> self.sequence(
                            b as int,
                        ) <= self.sequence(j),
                    None => forall|j: int|
                        0 <= j < i ==> #[trigger] self.state(j) != SlotState::Ready,
                },
            decreases 3 - i,
        {
            if self.states[i] == SlotState::Ready {
                best = match best {
                    Some(b) => if self.sequences[i] < self.sequences[b] {
                        Some(i)
                    } else {
                        Some(b)
                    },
                    None => Some(i),
                };
            }
            i += 1;
        }
        best
    }

    fn newest(&self) -> (r: Option<usize>)
        ensures
            match r {
                Some(i) => self.newest_ready(i as int),
                None => self.none_in(SlotState::Ready),
            },
    {
        let mut best: Option<usize> = None;
        let mut i: usize = 0;
        while i < 3
            invariant
                i <= 3,
                match best {
                    Some(b) => b < i && self.state(b as int) == SlotState::Ready && forall|j: int|
                        0 <= j < i && #[trigger] self.state(j) == SlotState::Ready ==> self.sequence(
                            j,
                        ) <= self.sequence(b as int),
                    None => forall|j: int|
                        0 <= j < i ==> #[trigger] self.state(j) != SlotState::Ready,
                },
            decreases 3 - i,
        {
            if self.states[i] == SlotState::Ready {
                best = match best {
                    Some(b) => if self.sequences[i] >= self.sequences[b] {
                        Some(i)
                    } else {
                        Some(b)
                    },
                    None => Some(i),
                };
            }
            i += 1;
        }
        best
    }

    /// Claims a slot to write: a free one, or else the ready one with the oldest
    /// publication, which is thereby discarded.
    pub fn begin_write(&mut self) -> (r: Option<Claim>)
        requires
            old(self).wf(),
        ensures
            final(self).wf(),
            final(self).same_frame(*old(self)),
            match r {
                Some(claim) => {
                    let i = claim.writer.slot();
                    &&& final(self).claimed_from(*old(self), i, claim.discarded)
                    &&& final(self).state(i) == SlotState::Writing
                    &&& final(self).pixels(i) == old(self).pixels(i)
                },
                None => *final(self) == *old(self) && old(self).none_in(SlotState::Free) && old(self).none_in(SlotState::Ready),
            },
    {
        match self.free_slot() {
            Some(index) => {
                self.states[index] = SlotState::Writing;
                proof {
                    self.lemma_unwaiting(*old(self), index as int);
                    assert forall|j: int| 0 <= j < 3 && #[trigger] self.waiting(j) implies self.meta(j) is Some by {
                        assert(old(self).waiting(j));
                    }
                }
                Some(Claim { writer: FrameWriter { index }, discarded: None })
            },
            None => match self.oldest() {
                Some(index) => {
                    let sequence: u64 = self.sequences[index];
                    self.states[index] = SlotState::Writing;
                    proof {
                        self.ledger@ = self.ledger@.insert(
                            sequence,
                            Disposition::Discarded(DiscardReason::ProducerReclaim),
                        );
                        self.lemma_ended(
                            *old(self),
                            index as int,
                            Disposition::Discarded(DiscardReason::ProducerReclaim),
                        );
                        assert forall|j: int|
                            0 <= j < 3 && #[trigger] self.waiting(j) implies self.meta(j) is Some by {
                            assert(old(self).waiting(j));
                        }
                    }
                    Some(Claim { writer: FrameWriter { index }, discarded: Some(sequence) })
                },
                None => None,
            },
        }
    }

    /// A slot that held no waiting publication changed into another such slot.
    proof fn lemma_unwaiting(self, before: FrameSlots, i: int)
        requires
            before.wf(),
            0 <= i < 3,
            !before.waiting(i),
            !self.waiting(i),
            forall|j: int| 0 <= j < 3 && j != i ==> #[trigger] self.state(j) == before.state(j),
            forall|j: int| 0 <= j < 3 && j != i ==> #[trigger] self.sequence(j) == before.sequence(j),
            self.ended() == before.ended(),
            self.published() == before.published(),
        ensures
            self.accounted(),
    {
        assert forall|n: u64| #[trigger] self.waits(n) == before.waits(n) by {
            if self.waits(n) {
                let k = choose|k: int| 0 <= k < 3 && #[trigger] self.waiting(k) && self.sequence(k) == n;
                assert(before.waiting(k) && before.sequence(k) == n);
            }
            if before.waits(n) {
                let k = choose|k: int|
                    0 <= k < 3 && #[trigger] before.waiting(k) && before.sequence(k) == n;
                assert(self.waiting(k) && self.sequence(k) == n);
            }
        }
        assert forall|a: int, b: int|
            0 <= a < 3 && 0 <= b < 3 && a != b && #[trigger] self.waiting(a)
                && #[trigger] self.waiting(b) implies self.sequence(a) != self.sequence(b) by {
            assert(before.waiting(a) && before.waiting(b));
        }
    }

    /// The publication that waited in slot `i` ended.
    proof fn lemma_ended(self, before: FrameSlots, i: int, how: Disposition)
        requires
            before.wf(),
            0 <= i < 3,
            before.waiting(i),
            !self.waiting(i),
            forall|j: int| 0 <= j < 3 && j != i ==> #[trigger] self.state(j) == before.state(j),
            forall|j: int| 0 <= j < 3 && j != i ==> #[trigger] self.sequence(j) == before.sequence(j),
            self.ended() == before.ended().insert(before.sequence(i), how),
            self.published() == before.published(),
        ensures
            self.accounted(),
            !before.ended().dom().contains(before.sequence(i)),
    {
        let gone = before.sequence(i);
        assert(before.waits(gone));
        assert forall|n: u64| #[trigger] self.waits(n) == (before.waits(n) && n != gone) by {
            if self.waits(n) {
                let k = choose|k: int| 0 <= k < 3 && #[trigger] self.waiting(k) && self.sequence(k) == n;
                assert(k != i);
                assert(before.waiting(k) && before.sequence(k) == n);
                assert(before.waiting(i));
            }
            if before.waits(n) && n != gone {
                let k = choose|k: int|
                    0 <= k < 3 && #[trigger] before.waiting(k) && before.sequence(k) == n;
                assert(k != i);
                assert(self.waiting(k) && self.sequence(k) == n);
            }
        }
        assert forall|n: u64|
            #![trigger self.ended().dom().contains(n)]
            #![trigger self.waits(n)]
            (1 <= n <= self.published()) <==> (self.ended().dom().contains(n) || self.waits(n)) by {
            assert((1 <= n <= before.published()) <==> (before.ended().dom().contains(n)
                || before.waits(n)));
        }
        assert forall|n: u64| #[trigger] self.ended().dom().contains(n) implies !self.waits(n) by {
            if n != gone {
                assert(before.ended().dom().contains(n));
            }
        }
        assert forall|a: int, b: int|
            0 <= a < 3 && 0 <= b < 3 && a != b && #[trigger] self.waiting(a)
                && #[trigger] self.waiting(b) implies self.sequence(a) != self.sequence(b) by {
            assert(before.waiting(a) && before.waiting(b));
        }
    }

    /// Slot `i` is being written.
    pub open spec fn writes(self, writer: FrameWriter) -> bool {
        0 <= writer.slot() < 3 && self.state(writer.slot()) == SlotState::Writing
    }

    /// Copies bytes to the start of a slot that is being written.
    pub fn write_bytes(&mut self, writer: &FrameWriter, pixels: &[u8]) -> (r: Result<
        (),
        FrameError,
    >)
        requires
            old(self).wf(),
            old(self).writes(*writer),
        ensures
            final(self).wf(),
            final(self).writes(*writer),
            final(self).same_frame(*old(self)),
            final(self).ended() == old(self).ended(),
            forall|j: int|
                0 <= j < 3 && j != writer.slot() ==> #[trigger] final(self).same_slot(*old(self), j),
            match r {
                Ok(_) => pixels@.len() <= old(self).frame_bytes() && final(self).pixels(
                    writer.slot(),
                ) == pixels@ + old(self).pixels(writer.slot()).skip(pixels@.len() as int),
                Err(e) => pixels@.len() > old(self).frame_bytes() && e == FrameError::PartialPixels
                    && *final(self) == *old(self),
            },
    {
        let n: usize = pixels.len();
        if n > self.slot_bytes {
            return Err(FrameError::PartialPixels);
        }
        let index: usize = writer.index;
        let ghost size = self.slot_bytes as int;
        let total: usize = self.storage.len();
        assert(index * size + size <= 3 * size) by (nonlinear_arith)
            requires
                index <= 2,
                size >= 0,
        ;
        let offset: usize = index * self.slot_bytes;
        let mut i: usize = 0;
        while i < n
            invariant
                i <= n == pixels@.len(),
                n <= size,
                offset + size <= total,
                total == self.storage@.len(),
                self.storage@.len() == old(self).storage@.len(),
                self.width == old(self).width,
                self.height == old(self).height,
                self.stride == old(self).stride,
                self.slot_bytes == old(self).slot_bytes,
                self.states == old(self).states,
                self.sequences == old(self).sequences,
                self.meta == old(self).meta,
                self.next_sequence == old(self).next_sequence,
                self.ledger == old(self).ledger,
                forall|k: int|
                    0 <= k < self.storage@.len() ==> #[trigger] self.storage@[k] == if offset <= k
                        < offset + i {
                        pixels@[k - offset]
                    } else {
                        old(self).storage@[k]
                    },
            decreases n - i,
        {
            self.storage.set(offset + i, pixels[i]);
            i += 1;
        }
        proof {
            assert forall|j: int| 0 <= j < 3 && j != index implies #[trigger] self.same_slot(
                *old(self),
                j,
            ) by {
                lemma_apart(index as int, j, size);
                assert(self.pixels(j) =~= old(self).pixels(j));
            }
            assert(self.pixels(index as int) =~= pixels@ + old(self).pixels(index as int).skip(
                n as int,
            ));
            self.lemma_still_waiting(*old(self));
            assert forall|j: int| 0 <= j < 3 && #[trigger] self.waiting(j) implies self.meta(j) is Some by {
                assert(old(self).waiting(j));
            }
        }
        Ok(())
    }

    /// Copies a whole frame into a slot that is being written.
    pub fn write_complete(&mut self, writer: &FrameWriter, pixels: &[u8]) -> (r: Result<
        (),
        FrameError,
    >)
        requires
            old(self).wf(),
            old(self).writes(*writer),
        ensures
            final(self).wf(),
            final(self).writes(*writer),
            final(self).same_frame(*old(self)),
            final(self).ended() == old(self).ended(),
            forall|j: int|
                0 <= j < 3 && j != writer.slot() ==> #[trigger] final(self).same_slot(*old(self), j),
            match r {
                Ok(_) => pixels@.len() == old(self).frame_bytes() && final(self).pixels(
                    writer.slot(),
                ) == pixels@,
                Err(e) => pixels@.len() != old(self).frame_bytes() && e == FrameError::Pixels
                    && *final(self) == *old(self),
            },
    {
        if pixels.len() != self.slot_bytes {
            return Err(FrameError::Pixels);
        }
        let r: Result<(), FrameError> = self.write_bytes(writer, pixels);
        proof {
            let i = writer.slot();
            let size = self.slot_bytes as int;
            assert(0 <= i * size && i * size + size <= 3 * size) by (nonlinear_arith)
                requires
                    0 <= i <= 2,
                    size >= 0,
            ;
            assert(pixels@ + old(self).pixels(i).skip(pixels@.len() as int) =~= pixels@);
        }
        r
    }

    /// Makes a written slot visible under the next number. Numbers never repeat:
    /// when they run out, the slot is given up instead.
    pub fn publish_fixture(
        &mut self,
        writer: FrameWriter,
        timing: FrameTiming,
        allocation: Option<FrameAllocation>,
    ) -> (r: Result<u64, FrameError>)
        requires
            old(self).wf(),
            old(self).writes(writer),
        ensures
            final(self).wf(),
            final(self).dimensions() == old(self).dimensions(),
            final(self).frame_bytes() == old(self).frame_bytes(),
            final(self).ended() == old(self).ended(),
            final(self).pixels(writer.slot()) == old(self).pixels(writer.slot()),
            forall|j: int|
                0 <= j < 3 && j != writer.slot() ==> #[trigger] final(self).same_slot(*old(self), j),
            match r {
                Ok(n) => {
                    &&& old(self).published() < u64::MAX
                    &&& n == old(self).published() + 1
                    &&& final(self).published() == n
                    &&& final(self).state(writer.slot()) == SlotState::Ready
                    &&& final(self).sequence(writer.slot()) == n
                    &&& final(self).meta(writer.slot()) == Some((timing, allocation))
                },
                Err(e) => {
                    &&& old(self).published() == u64::MAX
                    &&& e == FrameError::SequenceExhausted
                    &&& final(self).published() == old(self).published()
                    &&& final(self).state(writer.slot()) == SlotState::Free
                    &&& final(self).meta(writer.slot()) is None
                },
            },
    {
        let index: usize = writer.index;
        if self.next_sequence == 0xffff_ffff_ffff_ffff {
            self.abandon(writer);
            return Err(FrameError::SequenceExhausted);
        }
        let sequence: u64 = self.next_sequence + 1;
        self.next_sequence = sequence;
        self.meta[index] = Some((timing, allocation));
        self.sequences[index] = sequence;
        self.states[index] = SlotState::Ready;
        proof {
            let before = *old(self);
            let i = index as int;
            assert(!before.waiting(i));
            assert forall|n: u64| #[trigger] self.waits(n) == (before.waits(n) || n == sequence) by {
                if self.waits(n) {
                    let k = choose|k: int|
                        0 <= k < 3 && #[trigger] self.waiting(k) && self.sequence(k) == n;
                    if k != i {
                        assert(before.waiting(k) && before.sequence(k) == n);
                    }
                }
                if before.waits(n) {
                    let k = choose|k: int|
                        0 <= k < 3 && #[trigger] before.waiting(k) && before.sequence(k) == n;
                    assert(self.waiting(k) && self.sequence(k) == n);
                }
                if n == sequence {
                    assert(self.waiting(i) && self.sequence(i) == n);
                }
            }
            assert(!before.waits(sequence) && !before.ended().dom().contains(sequence));
            assert forall|n: u64|
                #![trigger self.ended().dom().contains(n)]
                #![trigger self.waits(n)]
                (1 <= n <= self.published()) <==> (self.ended().dom().contains(n) || self.waits(n)) by {
                assert((1 <= n <= before.published()) <==> (before.ended().dom().contains(n)
                    || before.waits(n)));
            }
            assert forall|a: int, b: int|
                0 <= a < 3 && 0 <= b < 3 && a != b && #[trigger] self.waiting(a)
                    && #[trigger] self.waiting(b) implies self.sequence(a) != self.sequence(b) by {
                if a != i && b != i {
                    assert(before.waiting(a) && before.waiting(b));
                } else if a != i {
                    assert(before.waiting(a));
                    assert(before.waits(before.sequence(a)));
                } else {
                    assert(before.waiting(b));
                    assert(before.waits(before.sequence(b)));
                }
            }
            assert forall|j: int| 0 <= j < 3 && #[trigger] self.waiting(j) implies self.meta(j) is Some by {
                if j != i {
                    assert(before.waiting(j));
                }
            }
        }
        Ok(sequence)
    }

    /// Gives up a slot that is being written: nothing of it becomes visible.
    pub fn abandon(&mut self, writer: FrameWriter)
        requires
            old(self).wf(),
            old(self).writes(writer),
        ensures
            final(self).wf(),
            final(self).same_frame(*old(self)),
            final(self).ended() == old(self).ended(),
            final(self).state(writer.slot()) == SlotState::Free,
            final(self).meta(writer.slot()) is None,
            final(self).pixels(writer.slot()) == old(self).pixels(writer.slot()),
            forall|j: int|
                0 <= j < 3 && j != writer.slot() ==> #[trigger] final(self).same_slot(*old(self), j),
    {
        let index: usize = writer.index;
        self.meta[index] = None;
        self.states[index] = SlotState::Free;
        proof {
            self.lemma_unwaiting(*old(self), index as int);
            assert forall|j: int| 0 <= j < 3 && #[trigger] self.waiting(j) implies self.meta(j) is Some by {
                assert(old(self).waiting(j));
            }
        }
    }

    /// Publishes a complete frame, unless every slot is being written or read. A
    /// publication that is refused or blocked uses up no number.
    pub fn try_publish_fixture(
        &mut self,
        width: usize,
        height: usize,
        stride: usize,
        pixels: &[u8],
        timing: FrameTiming,
        allocation: Option<FrameAllocation>,
    ) -> (r: Result<Option<Publication>, FrameError>)
        requires
            old(self).wf(),
        ensures
            final(self).wf(),
            final(self).dimensions() == old(self).dimensions(),
            final(self).frame_bytes() == old(self).frame_bytes(),
            ({
                let blocked = old(self).none_in(SlotState::Free) && old(self).none_in(
                    SlotState::Ready,
                );
                let allowed = (width, height, stride) == old(self).dimensions() && pixels@.len()
                    == old(self).frame_bytes() && (allocation matches Some(a) ==> a.valid());
                match r {
                    Err(FrameError::Dimensions) => (width, height, stride) != old(
                        self,
                    ).dimensions() && *final(self) == *old(self),
                    Err(FrameError::Pixels) => (width, height, stride) == old(self).dimensions()
                        && pixels@.len() != old(self).frame_bytes() && *final(self) == *old(self),
                    Err(FrameError::Allocation) => (width, height, stride) == old(
                        self,
                    ).dimensions() && pixels@.len() == old(self).frame_bytes() && (
                    allocation matches Some(a) && !a.valid()) && *final(self) == *old(self),
                    Ok(None) => allowed && blocked && *final(self) == *old(self),
                    // The claimed slot is free again, and what was given up for it is gone.
                    Err(FrameError::SequenceExhausted) => {
                        &&& allowed
                        &&& !blocked
                        &&& old(self).published() == u64::MAX
                        &&& final(self).published() == u64::MAX
                        &&& exists|i: int, discarded: Option<u64>|
                            {
                                &&& #[trigger] final(self).claimed_from(*old(self), i, discarded)
                                &&& final(self).state(i) == SlotState::Free
                                &&& final(self).meta(i) is None
                                &&& final(self).pixels(i) == pixels@
                            }
                    },
                    Ok(Some(made)) => {
                        &&& allowed
                        &&& !blocked
                        &&& old(self).published() < u64::MAX
                        &&& made.sequence == old(self).published() + 1
                        &&& final(self).published() == made.sequence
                        &&& exists|i: int|
                            {
                                &&& #[trigger] final(self).claimed_from(
                                    *old(self),
                                    i,
                                    made.discarded,
                                )
                                &&& final(self).state(i) == SlotState::Ready
                                &&& final(self).sequence(i) == made.sequence
                                &&& final(self).meta(i) == Some((timing, allocation))
                                &&& final(self).pixels(i) == pixels@
                            }
                    },
                    Err(_) => false,
                }
            }),
    {
        self.validate_frame(width, height, stride, pixels)?;
        if let Some(allocation) = allocation {
            if !allocation.is_valid() {
                return Err(FrameError::Allocation);
            }
        }
        let claim: Claim = match self.begin_write() {
            Some(claim) => claim,
            None => {
                return Ok(None);
            },
        };
        let discarded: Option<u64> = claim.discarded;
        let writer: FrameWriter = claim.writer;
        let ghost i = writer.slot();
        let ghost claimed = *self;
        self.write_complete(&writer, pixels)?;
        let ghost written = *self;
        let published: Result<u64, FrameError> = self.publish_fixture(writer, timing, allocation);
        proof {
            assert(old(self).state(i) == SlotState::Free || old(self).state(i) == SlotState::Ready);
            assert forall|j: int| 0 <= j < 3 && j != i implies #[trigger] self.same_slot(
                *old(self),
                j,
            ) by {
                assert(claimed.same_slot(*old(self), j));
                assert(written.same_slot(claimed, j));
                assert(self.same_slot(written, j));
            }
            assert(self.claimed_from(*old(self), i, discarded));
        }
        match published {
            Ok(sequence) => Ok(Some(Publication { sequence, discarded })),
            Err(e) => Err(e),
        }
    }

    /// Starts to read the newest visible frame.
    pub fn select(&mut self) -> (r: Option<Selection>)
        requires
            old(self).wf(),
        ensures
            final(self).wf(),
            final(self).same_frame(*old(self)),
            match r {
                Some(selection) => {
                    let i = selection.slot();
                    &&& old(self).newest_ready(i)
                    &&& selection.number() == old(self).sequence(i)
                    &&& final(self).state(i) == SlotState::Reading
                    &&& final(self).sequence(i) == old(self).sequence(i)
                    &&& final(self).meta(i) == old(self).meta(i)
                    &&& final(self).pixels(i) == old(self).pixels(i)
                    &&& forall|j: int|
                        0 <= j < 3 && j != i ==> #[trigger] final(self).same_slot(*old(self), j)
                    &&& final(self).ended() == old(self).ended().insert(
                        selection.number(),
                        Disposition::Selected,
                    )
                },
                None => *final(self) == *old(self) && old(self).none_in(SlotState::Ready),
            },
    {
        match self.newest() {
            Some(index) => {
                let sequence: u64 = self.sequences[index];
                self.states[index] = SlotState::Reading;
                proof {
                    self.ledger@ = self.ledger@.insert(sequence, Disposition::Selected);
                    self.lemma_ended(*old(self), index as int, Disposition::Selected);
                    assert forall|j: int| 0 <= j < 3 && #[trigger] self.waiting(j) implies self.meta(j) is Some by {
                        assert(old(self).waiting(j));
                    }
                }
                Some(Selection { index, sequence })
            },
            None => None,
        }
    }

    /// Holds a ready slot so that it can be inspected: no producer can claim it.
    pub fn begin_reclaim(&mut self, index: usize) -> (held: bool)
        requires
            old(self).wf(),
            index < 3,
        ensures
            final(self).wf(),
            final(self).same_frame(*old(self)),
            final(self).ended() == old(self).ended(),
            held == (old(self).state(index as int) == SlotState::Ready),
            final(self).state(index as int) == (if held {
                SlotState::Reclaiming
            } else {
                old(self).state(index as int)
            }),
            final(self).sequence(index as int) == old(self).sequence(index as int),
            final(self).meta(index as int) == old(self).meta(index as int),
            final(self).pixels(index as int) == old(self).pixels(index as int),
            forall|j: int|
                0 <= j < 3 && j != index ==> #[trigger] final(self).same_slot(*old(self), j),
    {
        if self.states[index] != SlotState::Ready {
            return false;
        }
        self.states[index] = SlotState::Reclaiming;
        proof {
            self.lemma_still_waiting(*old(self));
            assert forall|j: int| 0 <= j < 3 && #[trigger] self.waiting(j) implies self.meta(j) is Some by {
                assert(old(self).waiting(j));
            }
        }
        true
    }

    /// The same publications wait in the same slots.
    proof fn lemma_still_waiting(self, before: FrameSlots)
        requires
            before.wf(),
            forall|j: int| 0 <= j < 3 ==> #[trigger] self.waiting(j) == before.waiting(j),
            forall|j: int| 0 <= j < 3 ==> #[trigger] self.sequence(j) == before.sequence(j),
            self.ended() == before.ended(),
            self.published() == before.published(),
        ensures
            self.accounted(),
    {
        assert forall|n: u64| #[trigger] self.waits(n) == before.waits(n) by {
            if self.waits(n) {
                let k = choose|k: int| 0 <= k < 3 && #[trigger] self.waiting(k) && self.sequence(k) == n;
                assert(before.waiting(k) && before.sequence(k) == n);
            }
            if before.waits(n) {
                let k = choose|k: int|
                    0 <= k < 3 && #[trigger] before.waiting(k) && before.sequence(k) == n;
                assert(self.waiting(k) && self.sequence(k) == n);
            }
        }
        assert forall|a: int, b: int|
            0 <= a < 3 && 0 <= b < 3 && a != b && #[trigger] self.waiting(a)
                && #[trigger] self.waiting(b) implies self.sequence(a) != self.sequence(b) by {
            assert(before.waiting(a) && before.waiting(b));
        }
    }

    /// Lets a held slot go: a publication older than the selected one is discarded,
    /// a newer one becomes visible again.
    pub fn finish_reclaim(&mut self, index: usize, selected: u64) -> (discarded: Option<u64>)
        requires
            old(self).wf(),
            index < 3,
            old(self).state(index as int) == SlotState::Reclaiming,
        ensures
            final(self).wf(),
            final(self).same_frame(*old(self)),
            final(self).sequence(index as int) == old(self).sequence(index as int),
            final(self).meta(index as int) == old(self).meta(index as int),
            final(self).pixels(index as int) == old(self).pixels(index as int),
            forall|j: int|
                0 <= j < 3 && j != index ==> #[trigger] final(self).same_slot(*old(self), j),
            match discarded {
                Some(n) => {
                    &&& n == old(self).sequence(index as int)
                    &&& n < selected
                    &&& final(self).state(index as int) == SlotState::Free
                    &&& final(self).ended() == old(self).ended().insert(
                        n,
                        Disposition::Discarded(DiscardReason::ConsumerSuperseded),
                    )
                },
                None => {
                    &&& old(self).sequence(index as int) >= selected
                    &&& final(self).state(index as int) == SlotState::Ready
                    &&& final(self).ended() == old(self).ended()
                },
            },
    {
        let sequence: u64 = self.sequences[index];
        assert(old(self).waiting(index as int));
        if sequence < selected {
            self.states[index] = SlotState::Free;
            proof {
                let how = Disposition::Discarded(DiscardReason::ConsumerSuperseded);
                self.ledger@ = self.ledger@.insert(sequence, how);
                self.lemma_ended(*old(self), index as int, how);
                assert forall|j: int| 0 <= j < 3 && #[trigger] self.waiting(j) implies self.meta(j) is Some by {
                    assert(old(self).waiting(j));
                }
            }
            Some(sequence)
        } else {
            self.states[index] = SlotState::Ready;
            proof {
                self.lemma_still_waiting(*old(self));
                assert forall|j: int| 0 <= j < 3 && #[trigger] self.waiting(j) implies self.meta(j) is Some by {
                    assert(old(self).waiting(j));
                }
            }
            None
        }
    }

    /// Copies the selected frame out of its slot and frees the slot.
    pub fn finish_read(&mut self, selection: &Selection) -> (r: Result<CompletedFrame, FrameError>)
        requires
            old(self).wf(),
            0 <= selection.slot() < 3,
            old(self).state(selection.slot()) == SlotState::Reading,
        ensures
            final(self).wf(),
            final(self).same_frame(*old(self)),
            final(self).ended() == old(self).ended(),
            final(self).state(selection.slot()) == SlotState::Free,
            final(self).meta(selection.slot()) is None,
            final(self).pixels(selection.slot()) == old(self).pixels(selection.slot()),
            forall|j: int|
                0 <= j < 3 && j != selection.slot() ==> #[trigger] final(self).same_slot(
                    *old(self),
                    j,
                ),
            match (old(self).meta(selection.slot()), r) {
                (Some((timing, allocation)), Ok(frame)) => {
                    &&& (frame.width, frame.height, frame.stride) == old(self).dimensions()
                    &&& frame.pixels@ == old(self).pixels(selection.slot())
                    &&& frame.timing == timing
                    &&& frame.fixture_correlation == (match allocation {
                        Some(allocation) => Some(
                            FrameCorrelation { allocation, sequence: selection.number() },
                        ),
                        None => None,
                    })
                },
                (None, Err(e)) => e == FrameError::NoTiming,
                _ => false,
            },
    {
        let index: usize = selection.index;
        let ghost size = self.slot_bytes as int;
        let total: usize = self.storage.len();
        assert(index * size + size <= 3 * size) by (nonlinear_arith)
            requires
                index <= 2,
                size >= 0,
        ;
        let offset: usize = index * self.slot_bytes;
        let pixels: Vec<u8> = copy_range(
            self.storage.as_slice(),
            offset,
            offset + self.slot_bytes,
        );
        let meta: FrameMeta = self.meta[index];
        self.meta[index] = None;
        self.states[index] = SlotState::Free;
        proof {
            self.lemma_unwaiting(*old(self), index as int);
            assert forall|j: int| 0 <= j < 3 && #[trigger] self.waiting(j) implies self.meta(j) is Some by {
                assert(old(self).waiting(j));
            }
        }
        match meta {
            Some((timing, allocation)) => Ok(
                CompletedFrame {
                    width: self.width,
                    height: self.height,
                    stride: self.stride,
                    pixels,
                    timing,
                    fixture_correlation: match allocation {
                        Some(allocation) => Some(
                            FrameCorrelation { allocation, sequence: selection.sequence },
                        ),
                        None => None,
                    },
                },
            ),
            None => Err(FrameError::NoTiming),
        }
    }

    /// The numbers in the ready ones of the first `k` slots, without slot `n`.
    pub open spec fn other_ready_numbers(self, n: int, k: int) -> Seq<u64>
        decreases k,
    {
        if k <= 0 {
            Seq::empty()
        } else if k - 1 != n && self.state(k - 1) == SlotState::Ready {
            self.other_ready_numbers(n, k - 1).push(self.sequence(k - 1))
        } else {
            self.other_ready_numbers(n, k - 1)
        }
    }

    /// Takes the newest visible frame. Older visible frames are discarded, slots
    /// that are being written or read stay as they are.
    pub fn take_newest(&mut self) -> (r: Result<Option<Taken>, FrameError>)
        requires
            old(self).wf(),
        ensures
            final(self).wf(),
            final(self).same_frame(*old(self)),
            match r {
                Ok(None) => *final(self) == *old(self) && old(self).none_in(SlotState::Ready),
                Ok(Some(taken)) => exists|n: int|
                    {
                        &&& #[trigger] old(self).newest_ready(n)
                        &&& taken.sequence == old(self).sequence(n)
                        &&& (taken.frame.width, taken.frame.height, taken.frame.stride) == old(self).dimensions()
                        &&& taken.frame.pixels@ == old(self).pixels(n)
                        &&& taken.frame.timing == (old(self).meta(n)->0).0
                        &&& taken.frame.fixture_correlation == (match (old(self).meta(n)->0).1 {
                            Some(allocation) => Some(
                                FrameCorrelation { allocation, sequence: old(self).sequence(n) },
                            ),
                            None => None,
                        })
                        &&& taken.discarded@ == old(self).other_ready_numbers(n, 3)
                        &&& final(self).state(n) == SlotState::Free
                        &&& forall|j: int|
                            0 <= j < 3 && j != n ==> #[trigger] final(self).superseded(
                                *old(self),
                                j,
                            )
                        &&& final(self).ended() == ended_with(
                            old(self).ended().insert(taken.sequence, Disposition::Selected),
                            taken.discarded@,
                            Disposition::Discarded(DiscardReason::ConsumerSuperseded),
                        )
                    },
                Err(_) => false,
            },
    {
        let selection: Selection = match self.select() {
            Some(selection) => selection,
            None => {
                return Ok(None);
            },
        };
        let ghost start = *old(self);
        let index: usize = selection.index;
        let ghost n = index as int;
        let mut discarded: Vec<u64> = Vec::new();
        assert(start.waiting(n));
        let mut i: usize = 0;
        while i < 3
            invariant
                i <= 3,
                index == n,
                start == *old(self),
                start.wf(),
                start.newest_ready(n),
                start.waiting(n),
                selection.slot() == n,
                selection.number() == start.sequence(n),
                self.wf(),
                self.same_frame(start),
                self.state(n) == SlotState::Reading,
                self.sequence(n) == start.sequence(n),
                self.meta(n) == start.meta(n),
                self.pixels(n) == start.pixels(n),
                forall|j: int| i <= j < 3 && j != n ==> #[trigger] self.same_slot(start, j),
                forall|j: int| 0 <= j < i && j != n ==> #[trigger] self.superseded(start, j),
                discarded@ == start.other_ready_numbers(n, i as int),
                self.ended() == ended_with(
                    start.ended().insert(start.sequence(n), Disposition::Selected),
                    discarded@,
                    Disposition::Discarded(DiscardReason::ConsumerSuperseded),
                ),
            decreases 3 - i,
        {
            let ghost before = *self;
            if i != index {
                assert(self.same_slot(start, i as int));
                let held: bool = self.begin_reclaim(i);
                if held {
                    assert(before.same_slot(start, i as int));
                    assert(start.state(i as int) == SlotState::Ready);
                    assert(start.waiting(i as int) && start.waiting(n));
                    assert(start.accounted());
                    assert(start.sequence(i as int) != start.sequence(n));
                    let ghost middle = *self;
                    match self.finish_reclaim(i, selection.sequence) {
                        Some(sequence) => {
                            let ghost earlier = discarded@;
                            discarded.push(sequence);
                            assert(discarded@.drop_last() =~= earlier);
                        },
                        None => {},
                    }
                    proof {
                        assert forall|j: int| i + 1 <= j < 3 && j != n implies #[trigger] self.same_slot(
                            start,
                            j,
                        ) by {
                            assert(before.same_slot(start, j));
                            assert(middle.same_slot(before, j));
                            assert(self.same_slot(middle, j));
                        }
                        assert forall|j: int| 0 <= j < i + 1 && j != n implies #[trigger] self.superseded(
                            start,
                            j,
                        ) by {
                            if j < i {
                                assert(middle.same_slot(before, j));
                                assert(self.same_slot(middle, j));
                                assert(before.superseded(start, j));
                            }
                        }
                        assert(middle.same_slot(before, n));
                        assert(self.same_slot(middle, n));
                    }
                } else {
                    proof {
                        assert forall|j: int| 0 <= j < 3 implies #[trigger] self.same_slot(before, j) by {}
                        assert forall|j: int| i + 1 <= j < 3 && j != n implies #[trigger] self.same_slot(
                            start,
                            j,
                        ) by {
                            assert(self.same_slot(before, j));
                            assert(before.same_slot(start, j));
                        }
                        assert forall|j: int| 0 <= j < i + 1 && j != n implies #[trigger] self.superseded(
                            start,
                            j,
                        ) by {
                            assert(self.same_slot(before, j));
                            if j < i {
                                assert(before.superseded(start, j));
                            }
                        }
                        assert(self.same_slot(before, n));
                    }
                }
            }
            i += 1;
        }
        let ghost reclaimed = *self;
        let frame: CompletedFrame = self.finish_read(&selection)?;
        proof {
            assert forall|j: int| 0 <= j < 3 && j != n implies #[trigger] self.superseded(
                start,
                j,
            ) by {
                assert(self.same_slot(reclaimed, j));
                assert(reclaimed.superseded(start, j));
            }
            assert(old(self).newest_ready(n));
        }
        Ok(Some(Taken { frame, sequence: selection.sequence, discarded }))
    }

    /// The publications that are given up when the slots are closed: those that wait.
    pub fn close(self) -> (discarded: Vec<u64>)
        requires
            self.wf(),
        ensures
            discarded@ == self.ready_numbers(3),
    {
        let mut discarded: Vec<u64> = Vec::new();
        let mut i: usize = 0;
        while i < 3
            invariant
                i <= 3,
                discarded@ == self.ready_numbers(i as int),
            decreases 3 - i,
        {
            if self.states[i] == SlotState::Ready {
                discarded.push(self.sequences[i]);
            }
            i += 1;
        }
        discarded
    }

    /// The numbers in the ready ones of the first `n` slots, in slot order.
    pub open spec fn ready_numbers(self, n: int) -> Seq<u64>
        decreases n,
    {
        if n <= 0 {
            Seq::empty()
        } else if self.state(n - 1) == SlotState::Ready {
            self.ready_numbers(n - 1).push(self.sequence(n - 1))
        } else {
            self.ready_numbers(n - 1)
        }
    }
}

/// The endings with all of `numbers` ended in the same way.
pub open spec fn ended_with(
    ended: Map<u64, Disposition>,
    numbers: Seq<u64>,
    how: Disposition,
) -> Map<u64, Disposition>
    decreases numbers.len(),
{
    if numbers.len() == 0 {
        ended
    } else {
        ended_with(ended, numbers.drop_last(), how).insert(numbers.last(), how)
    }
}

/// Every publication ends at most once, and what has ended no longer waits: over the
/// whole history of well-formed slots, the numbers from one to the last are split
/// into those that wait and those that ended.
pub proof fn law_every_publication_is_accounted_for(slots: FrameSlots, n: u64)
    requires
        slots.wf(),
    ensures
        1 <= n <= slots.published() <==> (slots.ended().dom().contains(n) || slots.waits(n)),
        !(slots.ended().dom().contains(n) && slots.waits(n)),
{
    assert(slots.ended().dom().contains(n) ==> !slots.waits(n));
}

/// The frame that was published last is the one that is taken next: it is the newest
/// visible one, and the only newest one.
pub proof fn law_the_last_publication_is_taken_next(slots: FrameSlots, i: int, n: int)
    requires
        slots.wf(),
        0 <= i < 3,
        slots.state(i) == SlotState::Ready,
        slots.sequence(i) == slots.published(),
    ensures
        slots.newest_ready(i),
        slots.newest_ready(n) ==> n == i,
{
    assert forall|j: int| 0 <= j < 3 && #[trigger] slots.state(j) == SlotState::Ready implies slots.sequence(
        j,
    ) <= slots.sequence(i) by {
        assert(slots.waiting(j));
        assert(slots.waits(slots.sequence(j)));
    }
    if slots.newest_ready(n) && n != i {
        assert(slots.waiting(n) && slots.waiting(i));
    }
}

/// No two waiting publications have the same number.
pub proof fn law_waiting_publications_differ(slots: FrameSlots, i: int, j: int)
    requires
        slots.wf(),
        0 <= i < 3,
        0 <= j < 3,
        i != j,
        slots.waiting(i),
        slots.waiting(j),
    ensures
        slots.sequence(i) != slots.sequence(j),
{
}

/// Two different slots share no bytes.
proof fn lemma_apart(i: int, j: int, size: int)
    requires
        0 <= i < 3,
        0 <= j < 3,
        i != j,
        size >= 0,
    ensures
        i * size + size <= j * size || j * size + size <= i * size,
        0 <= i * size,
        i * size + size <= 3 * size,
        0 <= j * size,
        j * size + size <= 3 * size,
{
    assert(i * size + size <= j * size || j * size + size <= i * size) by (nonlinear_arith)
        requires
            0 <= i < 3,
            0 <= j < 3,
            i != j,
            size >= 0,
    ;
    assert(0 <= i * size && i * size + size <= 3 * size) by (nonlinear_arith)
        requires
            0 <= i < 3,
            size >= 0,
    ;
    assert(0 <= j * size && j * size + size <= 3 * size) by (nonlinear_arith)
        requires
            0 <= j < 3,
            size >= 0,
    ;
}

} // verus!
