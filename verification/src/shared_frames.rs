//! The three frame slots as one block of memory that two processes map.
//!
//! The block starts with a header: a magic, the dimensions, and the number of the
//! last publication. Each slot has a state byte and words for its publication; the
//! pixels follow. All numbers are little-endian. Each function is one step of one
//! process; the other process can change the block between two steps, so nothing
//! read from it is believed without a check.
use vstd::prelude::*;

use crate::bytes::{
    copy_range, get_le, le_bytes, le_value, lemma_le_bytes_len, lemma_le_round_trip,
    lemma_pow256_values, put_le, same_bytes,
};
use crate::events::{FrameAllocation, FrameCorrelation};
use crate::frame_slots::{
    dimension_error, validate_dimensions, CompletedFrame, FrameError, FrameTiming,
};
use crate::hardware::RealBits;

verus! {

pub const FREE: u8 = 0;

pub const WRITING: u8 = 1;

pub const READY: u8 = 2;

pub const READING: u8 = 3;

pub const RECLAIMING: u8 = 4;

/// Bytes before the slots.
pub const HEADER_BYTES: usize = 128;

/// Bytes of one slot's state and words.
pub const SLOT_META_BYTES: usize = 64;

/// Bytes before the pixels.
pub const PIXEL_OFFSET: usize = 320;

/// Where the number of the last publication is.
pub const SEQUENCE_OFFSET: usize = 32;

/// Why a block is refused.
#[derive(Clone, Copy, Debug, PartialEq, Eq, Structural)]
pub enum SharedError {
    Truncated,
    Magic,
    Dimensions,
    Stride,
    SlotSize,
    Size,
    Word,
    Pixels,
    SequenceExhausted,
    Sequence,
    AbsentAllocation,
    AllocationTag,
    Frame(FrameError),
}

/// The bytes with which a block starts.
pub open spec fn magic() -> Seq<u8> {
    seq![0x53, 0x4c, 0x56, 0x52, 0x46, 0x52, 0x4d, 0x32]
}

/// The word at `off`.
#[verifier::opaque]
pub open spec fn word(s: Seq<u8>, off: int) -> u64 {
    le_value(s.subrange(off, off + 8)) as u64
}

/// The half word at `off`.
pub open spec fn half(s: Seq<u8>, off: int) -> u32 {
    le_value(s.subrange(off, off + 4)) as u32
}

/// The block with `bytes` written at `off`.
#[verifier::opaque]
pub open spec fn with_bytes(s: Seq<u8>, off: int, bytes: Seq<u8>) -> Seq<u8> {
    Seq::new(
        s.len(),
        |k: int|
            if off <= k < off + bytes.len() {
                bytes[k - off]
            } else {
                s[k]
            },
    )
}

/// The block with a word written at `off`.
pub open spec fn with_word(s: Seq<u8>, off: int, v: u64) -> Seq<u8> {
    with_bytes(s, off, le_bytes(v as nat, 8))
}

/// Writing bytes changes those bytes alone.
pub broadcast proof fn lemma_with_bytes(s: Seq<u8>, off: int, bytes: Seq<u8>)
    ensures
        #![trigger with_bytes(s, off, bytes)]
        with_bytes(s, off, bytes).len() == s.len(),
        forall|k: int|
            0 <= k < s.len() ==> #[trigger] with_bytes(s, off, bytes)[k] == if off <= k < off
                + bytes.len() {
                bytes[k - off]
            } else {
                s[k]
            },
{
    reveal(with_bytes);
}

/// A word that was written is read back.
pub broadcast proof fn lemma_word_written(s: Seq<u8>, off: int, v: u64)
    requires
        0 <= off,
        off + 8 <= s.len(),
    ensures
        #![trigger word(with_bytes(s, off, le_bytes(v as nat, 8)), off)]
        word(with_bytes(s, off, le_bytes(v as nat, 8)), off) == v,
{
    reveal(word);
    reveal(with_bytes);
    lemma_le_bytes_len(v as nat, 8);
    lemma_pow256_values();
    lemma_le_round_trip(v as nat, 8);
    assert(with_bytes(s, off, le_bytes(v as nat, 8)).subrange(off, off + 8) =~= le_bytes(
        v as nat,
        8,
    ));
}

/// A word is not changed by what is written elsewhere.
pub broadcast proof fn lemma_word_elsewhere(s: Seq<u8>, off: int, bytes: Seq<u8>, at: int)
    requires
        0 <= at,
        at + 8 <= s.len(),
        at + 8 <= off || off + bytes.len() <= at,
    ensures
        #![trigger word(with_bytes(s, off, bytes), at)]
        word(with_bytes(s, off, bytes), at) == word(s, at),
{
    reveal(word);
    reveal(with_bytes);
    assert(with_bytes(s, off, bytes).subrange(at, at + 8) =~= s.subrange(at, at + 8));
}

/// A word is not changed by a byte that is written elsewhere.
pub broadcast proof fn lemma_word_after_byte(s: Seq<u8>, off: int, b: u8, at: int)
    requires
        0 <= at,
        at + 8 <= s.len(),
        0 <= off < s.len(),
        off < at || at + 8 <= off,
    ensures
        #![trigger word(s.update(off, b), at)]
        word(s.update(off, b), at) == word(s, at),
{
    reveal(word);
    assert(s.update(off, b).subrange(at, at + 8) =~= s.subrange(at, at + 8));
}

pub broadcast group group_block {
    lemma_with_bytes,
    lemma_word_written,
    lemma_word_elsewhere,
    lemma_word_after_byte,
    lemma_le_bytes_len,
}

/// The dimensions that a block was made for.
#[derive(Clone, Copy, Debug, PartialEq, Eq, Structural)]
pub struct SharedFrameMap {
    pub width: usize,
    pub height: usize,
    pub stride: usize,
    pub slot_bytes: usize,
}

/// Where slot `i` has its state.
pub open spec fn slot_at(i: int) -> int {
    128 + 64 * i
}

/// The state of slot `i`.
pub open spec fn slot_state(s: Seq<u8>, i: int) -> u8 {
    s[slot_at(i)]
}

/// The number of the publication in slot `i`.
pub open spec fn slot_number(s: Seq<u8>, i: int) -> u64 {
    word(s, slot_at(i) + 8)
}

/// The block with slot `i` in another state.
pub open spec fn with_state(s: Seq<u8>, i: int, state: u8) -> Seq<u8> {
    s.update(slot_at(i), state)
}

/// Slot `i` is the first free one.
pub open spec fn first_free(s: Seq<u8>, i: int) -> bool {
    &&& 0 <= i < 3
    &&& slot_state(s, i) == FREE
    &&& forall|j: int| 0 <= j < i ==> #[trigger] slot_state(s, j) != FREE
}

/// No slot is in this state.
pub open spec fn none_in(s: Seq<u8>, state: u8) -> bool {
    forall|j: int| 0 <= j < 3 ==> #[trigger] slot_state(s, j) != state
}

/// Slot `i` is the ready one with the lowest number, the first of several.
pub open spec fn oldest_ready(s: Seq<u8>, i: int) -> bool {
    &&& 0 <= i < 3
    &&& slot_state(s, i) == READY
    &&& forall|j: int|
        0 <= j < 3 && #[trigger] slot_state(s, j) == READY ==> slot_number(s, i) <= slot_number(
            s,
            j,
        ) && (j < i ==> slot_number(s, i) < slot_number(s, j))
}

/// Slot `i` is the ready one with the highest number, the last of several.
pub open spec fn newest_ready(s: Seq<u8>, i: int) -> bool {
    &&& 0 <= i < 3
    &&& slot_state(s, i) == READY
    &&& forall|j: int|
        0 <= j < 3 && #[trigger] slot_state(s, j) == READY ==> slot_number(s, j) <= slot_number(
            s,
            i,
        ) && (j > i ==> slot_number(s, j) < slot_number(s, i))
}

/// The allocation in the words of slot `i`. Where there is none, its words are zero.
pub open spec fn slot_allocation(s: Seq<u8>, i: int) -> Result<
    Option<FrameAllocation>,
    SharedError,
> {
    let base = slot_at(i);
    let a = FrameAllocation {
        id: word(s, base + 40),
        token: word(s, base + 48),
        allocated_ns: word(s, base + 56),
    };
    if word(s, base + 32) == 0 {
        if a.id == 0 && a.token == 0 && a.allocated_ns == 0 {
            Ok(None)
        } else {
            Err(SharedError::AbsentAllocation)
        }
    } else if word(s, base + 32) == 1 {
        if a.valid() {
            Ok(Some(a))
        } else {
            Err(SharedError::Frame(FrameError::Allocation))
        }
    } else {
        Err(SharedError::AllocationTag)
    }
}

/// The timing in the words of slot `i`.
pub open spec fn slot_timing(s: Seq<u8>, i: int) -> FrameTiming {
    FrameTiming {
        presentation_time: RealBits { bits: word(s, slot_at(i) + 16) },
        delta: RealBits { bits: word(s, slot_at(i) + 24) },
    }
}

/// The block with an allocation, or none, in the words of slot `i`.
pub open spec fn with_allocation(s: Seq<u8>, i: int, a: Option<FrameAllocation>) -> Seq<u8> {
    let base = slot_at(i);
    let tagged = with_word(
        s,
        base + 32,
        if a is Some {
            1
        } else {
            0
        },
    );
    let named = with_word(
        tagged,
        base + 40,
        match a {
            Some(a) => a.id,
            None => 0,
        },
    );
    let answered = with_word(
        named,
        base + 48,
        match a {
            Some(a) => a.token,
            None => 0,
        },
    );
    with_word(
        answered,
        base + 56,
        match a {
            Some(a) => a.allocated_ns,
            None => 0,
        },
    )
}

impl SharedFrameMap {
    /// Where the pixels of slot `i` start.
    pub open spec fn pixels_at(self, i: int) -> int {
        320 + i * self.slot_bytes
    }

    /// The pixels in slot `i`.
    pub open spec fn slot_pixels(self, s: Seq<u8>, i: int) -> Seq<u8> {
        s.subrange(self.pixels_at(i), self.pixels_at(i) + self.slot_bytes)
    }

    /// A block of this size belongs to these dimensions.
    pub open spec fn fits(self, s: Seq<u8>) -> bool {
        s.len() == 320 + 3 * self.slot_bytes
    }

    /// The block once a frame is in slot `i` and visible.
    pub open spec fn with_publication(
        self,
        s: Seq<u8>,
        i: int,
        number: u64,
        pixels: Seq<u8>,
        timing: FrameTiming,
        allocation: Option<FrameAllocation>,
    ) -> Seq<u8> {
        let painted = with_bytes(s, self.pixels_at(i), pixels);
        let counted = with_word(painted, 32, number);
        let numbered = with_word(counted, slot_at(i) + 8, number);
        let timed = with_word(numbered, slot_at(i) + 16, timing.presentation_time.bits);
        let paced = with_word(timed, slot_at(i) + 24, timing.delta.bits);
        with_state(with_allocation(paced, i, allocation), i, READY)
    }

    /// The frame in slot `i`, or why it is refused.
    pub open spec fn slot_error(self, s: Seq<u8>, i: int, number: u64) -> Option<SharedError> {
        let timing = slot_timing(s, i);
        if !(timing.presentation_time.finite() && timing.presentation_time.non_negative()) {
            Some(SharedError::Frame(FrameError::PresentationTime))
        } else if !timing.valid() {
            Some(SharedError::Frame(FrameError::Delta))
        } else if number == 0 {
            Some(SharedError::Sequence)
        } else {
            match slot_allocation(s, i) {
                Ok(_) => None,
                Err(e) => Some(e),
            }
        }
    }
}

/// A published frame is read back: its pixels, its timing and its allocation, and
/// the other slots are as they were.
pub proof fn law_shared_read_gives_back_the_publication(
    map: SharedFrameMap,
    s: Seq<u8>,
    i: int,
    number: u64,
    pixels: Seq<u8>,
    timing: FrameTiming,
    allocation: Option<FrameAllocation>,
    j: int,
)
    requires
        map.fits(s),
        0 <= i < 3,
        0 <= j < 3,
        number != 0,
        pixels.len() == map.slot_bytes,
        timing.valid(),
        allocation matches Some(a) ==> a.valid(),
    ensures
        ({
            let t = map.with_publication(s, i, number, pixels, timing, allocation);
            &&& map.fits(t)
            &&& slot_state(t, i) == READY
            &&& slot_number(t, i) == number
            &&& map.slot_pixels(t, i) == pixels
            &&& slot_timing(t, i) == timing
            &&& slot_allocation(t, i) == Ok::<Option<FrameAllocation>, SharedError>(allocation)
            &&& map.slot_error(t, i, number) is None
            &&& word(t, 32) == number
            &&& j != i ==> {
                &&& slot_state(t, j) == slot_state(s, j)
                &&& slot_number(t, j) == slot_number(s, j)
                &&& slot_timing(t, j) == slot_timing(s, j)
                &&& slot_allocation(t, j) == slot_allocation(s, j)
                &&& map.slot_pixels(t, j) == map.slot_pixels(s, j)
            }
        }),
{
    broadcast use group_block;

    let size = map.slot_bytes as int;
    lemma_pixels_apart(i, j, size);
    let t = map.with_publication(s, i, number, pixels, timing, allocation);
    let painted = with_bytes(s, map.pixels_at(i), pixels);
    let counted = with_word(painted, 32, number);
    let numbered = with_word(counted, slot_at(i) + 8, number);
    let timed = with_word(numbered, slot_at(i) + 16, timing.presentation_time.bits);
    let paced = with_word(timed, slot_at(i) + 24, timing.delta.bits);
    let base = slot_at(i);
    let tagged = with_word(
        paced,
        base + 32,
        if allocation is Some {
            1
        } else {
            0
        },
    );
    let named = with_word(
        tagged,
        base + 40,
        match allocation {
            Some(a) => a.id,
            None => 0,
        },
    );
    let answered = with_word(
        named,
        base + 48,
        match allocation {
            Some(a) => a.token,
            None => 0,
        },
    );
    let allocated = with_allocation(paced, i, allocation);
    assert(t == allocated.update(slot_at(i), READY));
    assert(map.slot_pixels(t, i) =~= pixels);
    if j != i {
        assert(map.slot_pixels(t, j) =~= map.slot_pixels(s, j));
    }
}

/// Slots share no pixels.
proof fn lemma_pixels_apart(i: int, j: int, size: int)
    requires
        0 <= i < 3,
        0 <= j < 3,
        size >= 0,
    ensures
        0 <= i * size,
        i * size + size <= 3 * size,
        0 <= j * size,
        j * size + size <= 3 * size,
        i != j ==> i * size + size <= j * size || j * size + size <= i * size,
{
    assert(0 <= i * size && i * size + size <= 3 * size) by (nonlinear_arith)
        requires
            0 <= i < 3,
            size >= 0,
    ;
    assert(0 <= j * size && j * size + size <= 3 * size) by (nonlinear_arith)
        requires
            0 <= j < 3,
            size >= 0,
    ;
    if i != j {
        assert(i * size + size <= j * size || j * size + size <= i * size) by (nonlinear_arith)
            requires
                0 <= i < 3,
                0 <= j < 3,
                i != j,
                size >= 0,
        ;
    }
}

/// Where slot `index` has its state.
pub fn slot_offset(index: usize) -> (off: usize)
    requires
        index < 3,
    ensures
        off == slot_at(index as int),
        off + 64 <= 320,
{
    HEADER_BYTES + index * SLOT_META_BYTES
}

/// Where the pixels of slot `index` start, in a block that fits the machine.
pub fn pixel_offset(index: usize, slot_bytes: usize) -> (off: usize)
    requires
        index < 3,
        320 + 3 * slot_bytes <= usize::MAX,
    ensures
        off == 320 + index * slot_bytes,
        off + slot_bytes <= 320 + 3 * slot_bytes,
{
    proof {
        lemma_pixels_apart(index as int, index as int, slot_bytes as int);
    }
    PIXEL_OFFSET + index * slot_bytes
}

fn read_word(storage: &Vec<u8>, off: usize) -> (v: u64)
    requires
        off + 8 <= storage@.len(),
    ensures
        v == word(storage@, off as int),
{
    proof {
        reveal(word);
        lemma_pow256_values();
    }
    get_le(storage.as_slice(), off, 8)
}

fn write_bytes(storage: &mut Vec<u8>, off: usize, bytes: &[u8])
    requires
        off + bytes@.len() <= old(storage)@.len(),
    ensures
        final(storage)@ == with_bytes(old(storage)@, off as int, bytes@),
{
    proof {
        reveal(with_bytes);
    }
    let ghost before = storage@;
    let total: usize = storage.len();
    let n: usize = bytes.len();
    let mut i: usize = 0;
    while i < n
        invariant
            i <= n == bytes@.len(),
            total == storage@.len() == before.len(),
            off + n <= total,
            forall|k: int|
                0 <= k < before.len() ==> #[trigger] storage@[k] == if off <= k < off + i {
                    bytes@[k - off]
                } else {
                    before[k]
                },
        decreases n - i,
    {
        storage.set(off + i, bytes[i]);
        i += 1;
    }
    assert(storage@ =~= with_bytes(before, off as int, bytes@));
}

fn write_word(storage: &mut Vec<u8>, off: usize, v: u64)
    requires
        off + 8 <= old(storage)@.len(),
    ensures
        final(storage)@ == with_word(old(storage)@, off as int, v),
        final(storage)@.len() == old(storage)@.len(),
{
    broadcast use group_block;

    let mut bytes: Vec<u8> = Vec::new();
    put_le(&mut bytes, v, 8);
    assert(bytes@ =~= le_bytes(v as nat, 8));
    write_bytes(storage, off, bytes.as_slice());
}

/// Writes an allocation, or that there is none, into the words of a slot.
pub fn write_allocation(storage: &mut Vec<u8>, index: usize, allocation: Option<FrameAllocation>)
    requires
        index < 3,
        old(storage)@.len() >= 320,
    ensures
        final(storage)@ == with_allocation(old(storage)@, index as int, allocation),
        final(storage)@.len() == old(storage)@.len(),
{
    let base: usize = slot_offset(index);
    match allocation {
        Some(a) => {
            write_word(storage, base + 32, 1);
            write_word(storage, base + 40, a.id);
            write_word(storage, base + 48, a.token);
            write_word(storage, base + 56, a.allocated_ns);
        },
        None => {
            write_word(storage, base + 32, 0);
            write_word(storage, base + 40, 0);
            write_word(storage, base + 48, 0);
            write_word(storage, base + 56, 0);
        },
    }
}

/// The allocation in the words of a slot.
pub fn read_allocation(storage: &Vec<u8>, index: usize) -> (r: Result<
    Option<FrameAllocation>,
    SharedError,
>)
    requires
        index < 3,
        storage@.len() >= 320,
    ensures
        r == slot_allocation(storage@, index as int),
{
    let base: usize = slot_offset(index);
    let tag: u64 = read_word(storage, base + 32);
    let allocation = FrameAllocation {
        id: read_word(storage, base + 40),
        token: read_word(storage, base + 48),
        allocated_ns: read_word(storage, base + 56),
    };
    if tag == 0 {
        if allocation.id == 0 && allocation.token == 0 && allocation.allocated_ns == 0 {
            Ok(None)
        } else {
            Err(SharedError::AbsentAllocation)
        }
    } else if tag == 1 {
        if allocation.is_valid() {
            Ok(Some(allocation))
        } else {
            Err(SharedError::Frame(FrameError::Allocation))
        }
    } else {
        Err(SharedError::AllocationTag)
    }
}

/// The header of a block, and zeros.
pub open spec fn fresh_block(map: SharedFrameMap) -> Seq<u8> {
    let header = magic() + le_bytes(map.width as nat, 4) + le_bytes(map.height as nat, 4) + le_bytes(
        map.stride as nat,
        4,
    ) + le_bytes(map.slot_bytes as nat, 4);
    header + Seq::new((296 + 3 * map.slot_bytes) as nat, |k: int| 0u8)
}

/// Why a block is refused, the first reason in the order of the checks.
pub open spec fn block_error(s: Seq<u8>) -> Option<SharedError> {
    if s.len() < 320 {
        Some(SharedError::Truncated)
    } else if s.subrange(0, 8) != magic() {
        Some(SharedError::Magic)
    } else if half(s, 8) == 0 || half(s, 12) == 0 {
        Some(SharedError::Dimensions)
    } else if half(s, 16) < half(s, 8) * 4 {
        Some(SharedError::Stride)
    } else if half(s, 20) != half(s, 16) * half(s, 12) {
        Some(SharedError::SlotSize)
    } else if s.len() != 320 + 3 * half(s, 20) {
        Some(SharedError::Size)
    } else {
        None
    }
}

/// The dimensions in the header of a block.
pub open spec fn block_map(s: Seq<u8>) -> SharedFrameMap {
    SharedFrameMap {
        width: half(s, 8) as usize,
        height: half(s, 12) as usize,
        stride: half(s, 16) as usize,
        slot_bytes: half(s, 20) as usize,
    }
}

/// A slot that was claimed for writing, and the publication that was given up for it.
#[derive(Clone, Copy, Debug, PartialEq, Eq, Structural)]
pub struct SharedClaim {
    pub index: usize,
    pub discarded: Option<u64>,
}

/// A publication that was made, and the one that was given up for it.
#[derive(Clone, Copy, Debug, PartialEq, Eq, Structural)]
pub struct SharedPublication {
    pub index: usize,
    pub sequence: u64,
    pub discarded: Option<u64>,
}

/// The frame that a consumer selected.
#[derive(Clone, Copy, Debug, PartialEq, Eq, Structural)]
pub struct SharedSelection {
    pub index: usize,
    pub sequence: u64,
}

/// A frame that was taken, and the publications that were given up for it.
pub struct SharedTaken {
    pub frame: CompletedFrame,
    pub sequence: u64,
    pub discarded: Vec<u64>,
}

/// The block once the ready ones of the first `k` slots that are older than
/// publication `number` are free, except slot `n`.
pub open spec fn without_older(s: Seq<u8>, n: int, number: u64, k: int) -> Seq<u8>
    decreases k,
{
    if k <= 0 {
        s
    } else {
        let t = without_older(s, n, number, k - 1);
        if k - 1 != n && slot_state(s, k - 1) == READY && slot_number(s, k - 1) < number {
            with_state(t, k - 1, FREE)
        } else {
            t
        }
    }
}

/// The publications that are given up with them.
pub open spec fn older_numbers(s: Seq<u8>, n: int, number: u64, k: int) -> Seq<u64>
    decreases k,
{
    if k <= 0 {
        Seq::empty()
    } else if k - 1 != n && slot_state(s, k - 1) == READY && slot_number(s, k - 1) < number {
        older_numbers(s, n, number, k - 1).push(slot_number(s, k - 1))
    } else {
        older_numbers(s, n, number, k - 1)
    }
}

proof fn lemma_without_older(s: Seq<u8>, n: int, number: u64, k: int)
    requires
        s.len() >= 320,
        0 <= k <= 3,
    ensures
        without_older(s, n, number, k).len() == s.len(),
        forall|j: int|
            k <= j < 3 ==> slot_state(without_older(s, n, number, k), j) == #[trigger] slot_state(s, j),
        forall|j: int|
            0 <= j < 3 ==> slot_number(without_older(s, n, number, k), j) == #[trigger] slot_number(
                s,
                j,
            ),
    decreases k,
{
    broadcast use group_block;

    if k > 0 {
        lemma_without_older(s, n, number, k - 1);
    }
}

impl SharedFrameMap {
    /// A fresh block for frames of these dimensions.
    pub fn new_shared(width: usize, height: usize, stride: usize) -> (r: Result<
        (SharedFrameMap, Vec<u8>),
        SharedError,
    >)
        ensures
            match r {
                Ok((map, block)) => {
                    &&& dimension_error(width, height, stride) is None
                    &&& map.width == width && map.height == height && map.stride == stride
                    &&& map.slot_bytes == stride * height
                    &&& block@ == fresh_block(map)
                    &&& map.fits(block@)
                },
                Err(SharedError::Frame(e)) => dimension_error(width, height, stride) == Some(e),
                Err(SharedError::Size) => dimension_error(width, height, stride) is None && 320 + 3
                    * (stride * height) > usize::MAX,
                Err(SharedError::Word) => dimension_error(width, height, stride) is None && 320 + 3
                    * (stride * height) <= usize::MAX && !(width <= u32::MAX && height <= u32::MAX
                    && stride <= u32::MAX && stride * height <= u32::MAX),
                Err(_) => false,
            },
    {
        let slot_bytes: usize = match validate_dimensions(width, height, stride) {
            Ok(n) => n,
            Err(e) => {
                return Err(SharedError::Frame(e));
            },
        };
        let pixels: usize = match slot_bytes.checked_mul(3) {
            Some(n) => n,
            None => {
                return Err(SharedError::Size);
            },
        };
        let total: usize = match PIXEL_OFFSET.checked_add(pixels) {
            Some(n) => n,
            None => {
                return Err(SharedError::Size);
            },
        };
        if width as u64 > 0xffff_ffff || height as u64 > 0xffff_ffff || stride as u64 > 0xffff_ffff
            || slot_bytes as u64 > 0xffff_ffff {
            return Err(SharedError::Word);
        }
        let map = SharedFrameMap { width, height, stride, slot_bytes };
        let mut block: Vec<u8> = vec![0x53, 0x4c, 0x56, 0x52, 0x46, 0x52, 0x4d, 0x32];
        put_le(&mut block, width as u64, 4);
        put_le(&mut block, height as u64, 4);
        put_le(&mut block, stride as u64, 4);
        put_le(&mut block, slot_bytes as u64, 4);
        proof {
            lemma_le_bytes_len(width as nat, 4);
            lemma_le_bytes_len(height as nat, 4);
            lemma_le_bytes_len(stride as nat, 4);
            lemma_le_bytes_len(slot_bytes as nat, 4);
        }
        let ghost header = block@;
        let mut i: usize = 24;
        while i < total
            invariant
                24 <= i <= total,
                block@ == header + Seq::new((i - 24) as nat, |k: int| 0u8),
            decreases total - i,
        {
            block.push(0);
            i += 1;
            assert(block@ =~= header + Seq::new((i - 24) as nat, |k: int| 0u8));
        }
        assert(block@ =~= fresh_block(map));
        Ok((map, block))
    }

    /// The dimensions of a block that another process made, unless it is refused.
    pub fn open(storage: &Vec<u8>) -> (r: Result<SharedFrameMap, SharedError>)
        ensures
            match r {
                Ok(map) => block_error(storage@) is None && map == block_map(storage@) && map.fits(
                    storage@,
                ),
                Err(e) => block_error(storage@) == Some(e),
            },
    {
        let n: usize = storage.len();
        if n < PIXEL_OFFSET {
            return Err(SharedError::Truncated);
        }
        proof {
            lemma_pow256_values();
        }
        let head: Vec<u8> = copy_range(storage.as_slice(), 0, 8);
        let expected: Vec<u8> = vec![0x53, 0x4c, 0x56, 0x52, 0x46, 0x52, 0x4d, 0x32];
        assert(expected@ =~= magic());
        if !same_bytes(head.as_slice(), expected.as_slice()) {
            return Err(SharedError::Magic);
        }
        let width: u64 = get_le(storage.as_slice(), 8, 4);
        let height: u64 = get_le(storage.as_slice(), 12, 4);
        let stride: u64 = get_le(storage.as_slice(), 16, 4);
        let slot_bytes: u64 = get_le(storage.as_slice(), 20, 4);
        if width == 0 || height == 0 {
            return Err(SharedError::Dimensions);
        }
        if stride < width * 4 {
            return Err(SharedError::Stride);
        }
        assert(stride * height <= 0xffff_ffff * 0xffff_ffff) by (nonlinear_arith)
            requires
                stride <= 0xffff_ffff,
                height <= 0xffff_ffff,
        ;
        if slot_bytes != stride * height {
            return Err(SharedError::SlotSize);
        }
        if n as u64 != 320 + slot_bytes * 3 {
            return Err(SharedError::Size);
        }
        Ok(
            SharedFrameMap {
                width: width as usize,
                height: height as usize,
                stride: stride as usize,
                slot_bytes: slot_bytes as usize,
            },
        )
    }

    fn first_in(storage: &Vec<u8>, state: u8) -> (r: Option<usize>)
        requires
            storage@.len() >= 320,
        ensures
            match r {
                Some(i) => i < 3 && slot_state(storage@, i as int) == state && forall|j: int|
                    0 <= j < i ==> #[trigger] slot_state(storage@, j) != state,
                None => none_in(storage@, state),
            },
    {
        let mut i: usize = 0;
        while i < 3
            invariant
                i <= 3,
                storage@.len() >= 320,
                forall|j: int| 0 <= j < i ==> #[trigger] slot_state(storage@, j) != state,
            decreases 3 - i,
        {
            if storage[slot_offset(i)] == state {
                return Some(i);
            }
            i += 1;
        }
        None
    }

    fn extreme_ready(storage: &Vec<u8>, newest: bool) -> (r: Option<usize>)
        requires
            storage@.len() >= 320,
        ensures
            match r {
                Some(i) => if newest {
                    newest_ready(storage@, i as int)
                } else {
                    oldest_ready(storage@, i as int)
                },
                None => none_in(storage@, READY),
            },
    {
        let mut best: Option<usize> = None;
        let mut i: usize = 0;
        while i < 3
            invariant
                i <= 3,
                storage@.len() >= 320,
                match best {
                    Some(b) => b < i && slot_state(storage@, b as int) == READY && forall|j: int|
                        0 <= j < i && #[trigger] slot_state(storage@, j) == READY ==> if newest {
                            slot_number(storage@, j) <= slot_number(storage@, b as int) && (j > b
                                ==> slot_number(storage@, j) < slot_number(storage@, b as int))
                        } else {
                            slot_number(storage@, b as int) <= slot_number(storage@, j) && (j < b
                                ==> slot_number(storage@, b as int) < slot_number(storage@, j))
                        },
                    None => forall|j: int|
                        0 <= j < i ==> #[trigger] slot_state(storage@, j) != READY,
                },
            decreases 3 - i,
        {
            if storage[slot_offset(i)] == READY {
                let here: u64 = read_word(storage, slot_offset(i) + 8);
                best = match best {
                    Some(b) => {
                        let there: u64 = read_word(storage, slot_offset(b) + 8);
                        if (newest && here >= there) || (!newest && here < there) {
                            Some(i)
                        } else {
                            Some(b)
                        }
                    },
                    None => Some(i),
                };
            }
            i += 1;
        }
        best
    }

    /// Claims a slot to write: a free one, or else the ready one with the oldest
    /// publication, which is thereby discarded.
    pub fn claim_write(&self, storage: &mut Vec<u8>) -> (r: Option<SharedClaim>)
        requires
            self.fits(old(storage)@),
        ensures
            self.fits(final(storage)@),
            match r {
                Some(claim) => {
                    &&& claim.index < 3
                    &&& final(storage)@ == with_state(old(storage)@, claim.index as int, WRITING)
                    &&& match claim.discarded {
                        None => first_free(old(storage)@, claim.index as int),
                        Some(n) => none_in(old(storage)@, FREE) && oldest_ready(
                            old(storage)@,
                            claim.index as int,
                        ) && n == slot_number(old(storage)@, claim.index as int),
                    }
                },
                None => final(storage)@ == old(storage)@ && none_in(old(storage)@, FREE)
                    && none_in(old(storage)@, READY),
            },
    {
        match SharedFrameMap::first_in(storage, FREE) {
            Some(index) => {
                storage.set(slot_offset(index), WRITING);
                Some(SharedClaim { index, discarded: None })
            },
            None => match SharedFrameMap::extreme_ready(storage, false) {
                Some(index) => {
                    let sequence: u64 = read_word(storage, slot_offset(index) + 8);
                    storage.set(slot_offset(index), WRITING);
                    Some(SharedClaim { index, discarded: Some(sequence) })
                },
                None => None,
            },
        }
    }

    /// What came of publishing into a block that was `s` and became `t`.
    pub open spec fn publishes(
        self,
        s: Seq<u8>,
        t: Seq<u8>,
        pixels: Seq<u8>,
        timing: FrameTiming,
        allocation: Option<FrameAllocation>,
        r: Result<Option<SharedPublication>, SharedError>,
    ) -> bool {
        let blocked = none_in(s, FREE) && none_in(s, READY);
        match r {
            Err(SharedError::Pixels) => pixels.len() != self.slot_bytes && t == s,
            Ok(None) => pixels.len() == self.slot_bytes && blocked && t == s,
            Ok(Some(made)) => {
                &&& pixels.len() == self.slot_bytes
                &&& !blocked
                &&& word(s, 32) < u64::MAX
                &&& made.sequence == word(s, 32) + 1
                &&& made.index < 3
                &&& match made.discarded {
                    None => first_free(s, made.index as int),
                    Some(n) => none_in(s, FREE) && oldest_ready(s, made.index as int) && n
                        == slot_number(s, made.index as int),
                }
                &&& t == self.with_publication(
                    with_state(s, made.index as int, WRITING),
                    made.index as int,
                    made.sequence,
                    pixels,
                    timing,
                    allocation,
                )
            },
            Err(SharedError::SequenceExhausted) => {
                &&& pixels.len() == self.slot_bytes
                &&& !blocked
                &&& word(s, 32) == u64::MAX
                &&& exists|i: int|
                    0 <= i < 3 && (first_free(s, i) || (none_in(s, FREE) && oldest_ready(s, i)))
                        && t == #[trigger] with_bytes(
                        with_state(s, i, WRITING),
                        self.pixels_at(i),
                        pixels,
                    )
            },
            Err(_) => false,
        }
    }

    /// Publishes a complete frame, unless every slot is being written or read. A
    /// publication that is blocked uses up no number; when the numbers run out, the
    /// claimed slot stays claimed and nothing becomes visible.
    pub fn try_publish(
        &self,
        storage: &mut Vec<u8>,
        pixels: &[u8],
        timing: FrameTiming,
        allocation: Option<FrameAllocation>,
    ) -> (r: Result<Option<SharedPublication>, SharedError>)
        requires
            self.fits(old(storage)@),
        ensures
            self.fits(final(storage)@),
            self.publishes(old(storage)@, final(storage)@, pixels@, timing, allocation, r),
    {
        broadcast use group_block;

        if pixels.len() != self.slot_bytes {
            return Err(SharedError::Pixels);
        }
        let claim: SharedClaim = match self.claim_write(storage) {
            Some(claim) => claim,
            None => {
                return Ok(None);
            },
        };
        let index: usize = claim.index;
        let total: usize = storage.len();
        let offset: usize = pixel_offset(index, self.slot_bytes);
        let ghost claimed = storage@;
        write_bytes(storage, offset, pixels);
        let last: u64 = read_word(storage, SEQUENCE_OFFSET);
        assert(last == word(claimed, 32));
        assert(word(claimed, 32) == word(old(storage)@, 32));
        if last == 0xffff_ffff_ffff_ffff {
            assert(storage@ == with_bytes(
                with_state(old(storage)@, index as int, WRITING),
                self.pixels_at(index as int),
                pixels@,
            ));
            return Err(SharedError::SequenceExhausted);
        }
        let sequence: u64 = last + 1;
        write_word(storage, SEQUENCE_OFFSET, sequence);
        let base: usize = slot_offset(index);
        write_word(storage, base + 8, sequence);
        write_word(storage, base + 16, timing.presentation_time.bits);
        write_word(storage, base + 24, timing.delta.bits);
        write_allocation(storage, index, allocation);
        storage.set(base, READY);
        Ok(Some(SharedPublication { index, sequence, discarded: claim.discarded }))
    }

    /// Publishes a frame that comes with its dimensions, unless they are not those of the
    /// block or the allocation is out of range.
    pub fn try_publish_fixture(
        &self,
        storage: &mut Vec<u8>,
        dimensions: (usize, usize, usize),
        pixels: &[u8],
        timing: FrameTiming,
        allocation: Option<FrameAllocation>,
    ) -> (r: Result<Option<SharedPublication>, SharedError>)
        requires
            self.fits(old(storage)@),
        ensures
            self.fits(final(storage)@),
            if dimensions != (self.width, self.height, self.stride) {
                r == Err::<Option<SharedPublication>, SharedError>(
                    SharedError::Frame(FrameError::Dimensions),
                ) && final(storage)@ == old(storage)@
            } else if pixels@.len() == self.slot_bytes && (allocation matches Some(a)
                && !a.valid()) {
                r == Err::<Option<SharedPublication>, SharedError>(
                    SharedError::Frame(FrameError::Allocation),
                ) && final(storage)@ == old(storage)@
            } else {
                self.publishes(old(storage)@, final(storage)@, pixels@, timing, allocation, r)
            },
    {
        if dimensions.0 != self.width || dimensions.1 != self.height || dimensions.2
            != self.stride {
            return Err(SharedError::Frame(FrameError::Dimensions));
        }
        if pixels.len() == self.slot_bytes {
            if let Some(a) = allocation {
                if !a.is_valid() {
                    return Err(SharedError::Frame(FrameError::Allocation));
                }
            }
        }
        self.try_publish(storage, pixels, timing, allocation)
    }

    /// Chooses the newest visible frame. It is not owned yet: until it is, its slot can be
    /// reclaimed and hold another publication.
    pub fn choose_newest(&self, storage: &Vec<u8>) -> (r: Option<usize>)
        requires
            self.fits(storage@),
        ensures
            match r {
                Some(index) => newest_ready(storage@, index as int),
                None => none_in(storage@, READY),
            },
    {
        SharedFrameMap::extreme_ready(storage, true)
    }

    /// Starts to read a slot, whatever publication it holds by now, as long as it is still
    /// visible.
    pub fn own(&self, storage: &mut Vec<u8>, index: usize) -> (r: Option<SharedSelection>)
        requires
            self.fits(old(storage)@),
            index < 3,
        ensures
            self.fits(final(storage)@),
            match r {
                Some(selection) => {
                    &&& slot_state(old(storage)@, index as int) == READY
                    &&& selection == (SharedSelection {
                        index,
                        sequence: slot_number(old(storage)@, index as int),
                    })
                    &&& final(storage)@ == with_state(old(storage)@, index as int, READING)
                },
                None => slot_state(old(storage)@, index as int) != READY && final(storage)@ == old(
                    storage,
                )@,
            },
    {
        if storage[slot_offset(index)] != READY {
            return None;
        }
        let sequence: u64 = read_word(storage, slot_offset(index) + 8);
        storage.set(slot_offset(index), READING);
        Some(SharedSelection { index, sequence })
    }

    /// Starts to read the newest visible frame.
    pub fn select(&self, storage: &mut Vec<u8>) -> (r: Option<SharedSelection>)
        requires
            self.fits(old(storage)@),
        ensures
            self.fits(final(storage)@),
            match r {
                Some(selection) => {
                    &&& newest_ready(old(storage)@, selection.index as int)
                    &&& selection.sequence == slot_number(old(storage)@, selection.index as int)
                    &&& final(storage)@ == with_state(
                        old(storage)@,
                        selection.index as int,
                        READING,
                    )
                },
                None => final(storage)@ == old(storage)@ && none_in(old(storage)@, READY),
            },
    {
        match self.choose_newest(storage) {
            Some(index) => self.own(storage, index),
            None => None,
        }
    }

    /// Copies the selected frame, unless its words are refused.
    pub fn read(&self, storage: &Vec<u8>, selection: SharedSelection) -> (r: Result<
        CompletedFrame,
        SharedError,
    >)
        requires
            self.fits(storage@),
            selection.index < 3,
        ensures
            match r {
                Ok(frame) => {
                    let i = selection.index as int;
                    &&& self.slot_error(storage@, i, selection.sequence) is None
                    &&& frame.width == self.width && frame.height == self.height && frame.stride
                        == self.stride
                    &&& frame.pixels@ == self.slot_pixels(storage@, i)
                    &&& frame.timing == slot_timing(storage@, i)
                    &&& frame.fixture_correlation == (match slot_allocation(storage@, i)->Ok_0 {
                        Some(allocation) => Some(
                            FrameCorrelation { allocation, sequence: selection.sequence },
                        ),
                        None => None,
                    })
                },
                Err(e) => self.slot_error(storage@, selection.index as int, selection.sequence)
                    == Some(e),
            },
    {
        let index: usize = selection.index;
        let total: usize = storage.len();
        let offset: usize = pixel_offset(index, self.slot_bytes);
        let pixels: Vec<u8> = copy_range(storage.as_slice(), offset, offset + self.slot_bytes);
        let base: usize = slot_offset(index);
        let time = RealBits { bits: read_word(storage, base + 16) };
        let delta = RealBits { bits: read_word(storage, base + 24) };
        let timing: FrameTiming = match FrameTiming::new(time, delta) {
            Ok(timing) => timing,
            Err(e) => {
                return Err(SharedError::Frame(e));
            },
        };
        if selection.sequence == 0 {
            return Err(SharedError::Sequence);
        }
        let allocation: Option<FrameAllocation> = read_allocation(storage, index)?;
        Ok(
            CompletedFrame {
                width: self.width,
                height: self.height,
                stride: self.stride,
                pixels,
                timing,
                fixture_correlation: match allocation {
                    Some(allocation) => Some(
                        FrameCorrelation { allocation, sequence: selection.sequence },
                    ),
                    None => None,
                },
            },
        )
    }

    /// Frees the slot that was read, and every ready slot with an older publication.
    /// A newer publication stays visible.
    pub fn release(&self, storage: &mut Vec<u8>, selection: SharedSelection) -> (discarded: Vec<
        u64,
    >)
        requires
            self.fits(old(storage)@),
            selection.index < 3,
        ensures
            self.fits(final(storage)@),
            ({
                let n = selection.index as int;
                let freed = with_state(old(storage)@, n, FREE);
                &&& final(storage)@ == without_older(freed, n, selection.sequence, 3)
                &&& discarded@ == older_numbers(freed, n, selection.sequence, 3)
            }),
    {
        let ghost n = selection.index as int;
        storage.set(slot_offset(selection.index), FREE);
        let ghost freed = storage@;
        let mut discarded: Vec<u64> = Vec::new();
        let mut i: usize = 0;
        while i < 3
            invariant
                i <= 3,
                n == selection.index,
                freed.len() >= 320,
                storage@.len() == freed.len(),
                storage@ == without_older(freed, n, selection.sequence, i as int),
                discarded@ == older_numbers(freed, n, selection.sequence, i as int),
            decreases 3 - i,
        {
            proof {
                lemma_without_older(freed, n, selection.sequence, i as int);
                assert(slot_state(storage@, i as int) == slot_state(freed, i as int));
                assert(slot_number(storage@, i as int) == slot_number(freed, i as int));
            }
            if i != selection.index && storage[slot_offset(i)] == READY {
                let sequence: u64 = read_word(storage, slot_offset(i) + 8);
                if sequence < selection.sequence {
                    discarded.push(sequence);
                    storage.set(slot_offset(i), FREE);
                }
            }
            i += 1;
        }
        discarded
    }

    /// Takes the newest visible frame and discards older ones. A frame whose words
    /// are refused is not returned, and its slot stays unavailable.
    pub fn take_newest(&self, storage: &mut Vec<u8>) -> (r: Result<Option<SharedTaken>, SharedError>)
        requires
            self.fits(old(storage)@),
        ensures
            self.fits(final(storage)@),
            match r {
                Ok(None) => final(storage)@ == old(storage)@ && none_in(old(storage)@, READY),
                Ok(Some(taken)) => exists|n: int|
                    {
                        let s = old(storage)@;
                        let freed = with_state(with_state(s, n, READING), n, FREE);
                        &&& #[trigger] newest_ready(old(storage)@, n)
                        &&& taken.sequence == slot_number(s, n)
                        &&& self.slot_error(with_state(s, n, READING), n, taken.sequence) is None
                        &&& taken.frame.width == self.width
                        &&& taken.frame.height == self.height
                        &&& taken.frame.stride == self.stride
                        &&& taken.frame.pixels@ == self.slot_pixels(with_state(s, n, READING), n)
                        &&& taken.frame.timing == slot_timing(with_state(s, n, READING), n)
                        &&& taken.frame.fixture_correlation == (match slot_allocation(
                            with_state(s, n, READING),
                            n,
                        )->Ok_0 {
                            Some(allocation) => Some(
                                FrameCorrelation { allocation, sequence: taken.sequence },
                            ),
                            None => None,
                        })
                        &&& final(storage)@ == without_older(freed, n, taken.sequence, 3)
                        &&& taken.discarded@ == older_numbers(freed, n, taken.sequence, 3)
                    },
                Err(e) => exists|n: int|
                    {
                        let s = old(storage)@;
                        &&& #[trigger] newest_ready(old(storage)@, n)
                        &&& final(storage)@ == with_state(s, n, READING)
                        &&& self.slot_error(with_state(s, n, READING), n, slot_number(s, n)) == Some(e)
                    },
            },
    {
        let selection: SharedSelection = match self.select(storage) {
            Some(selection) => selection,
            None => {
                return Ok(None);
            },
        };
        assert(newest_ready(old(storage)@, selection.index as int));
        let frame: CompletedFrame = self.read(storage, selection)?;
        let discarded: Vec<u64> = self.release(storage, selection);
        Ok(Some(SharedTaken { frame, sequence: selection.sequence, discarded }))
    }

    /// The publications that are given up when the owner closes the block: those
    /// that are visible. A process that only opened it gives up none.
    pub fn close(&self, storage: &Vec<u8>, owner: bool) -> (discarded: Vec<u64>)
        requires
            self.fits(storage@),
        ensures
            discarded@ == (if owner {
                ready_numbers(storage@, 3)
            } else {
                Seq::<u64>::empty()
            }),
    {
        let mut discarded: Vec<u64> = Vec::new();
        if !owner {
            return discarded;
        }
        let mut i: usize = 0;
        while i < 3
            invariant
                i <= 3,
                storage@.len() >= 320,
                discarded@ == ready_numbers(storage@, i as int),
            decreases 3 - i,
        {
            if storage[slot_offset(i)] == READY {
                discarded.push(read_word(storage, slot_offset(i) + 8));
            }
            i += 1;
        }
        discarded
    }
}

/// The numbers in the ready ones of the first `n` slots, in slot order.
pub open spec fn ready_numbers(s: Seq<u8>, n: int) -> Seq<u64>
    decreases n,
{
    if n <= 0 {
        Seq::empty()
    } else if slot_state(s, n - 1) == READY {
        ready_numbers(s, n - 1).push(slot_number(s, n - 1))
    } else {
        ready_numbers(s, n - 1)
    }
}

/// A fresh block is accepted with the dimensions it was made for, and holds no frame.
pub proof fn law_fresh_block_opens(map: SharedFrameMap)
    requires
        0 < map.width <= u32::MAX,
        0 < map.height <= u32::MAX,
        map.width * 4 <= map.stride <= u32::MAX,
        map.slot_bytes == map.stride * map.height,
        map.slot_bytes <= u32::MAX,
    ensures
        block_error(fresh_block(map)) is None,
        block_map(fresh_block(map)) == map,
        map.fits(fresh_block(map)),
        forall|i: int| 0 <= i < 3 ==> #[trigger] slot_state(fresh_block(map), i) == FREE,
{
    let s = fresh_block(map);
    lemma_pow256_values();
    lemma_le_bytes_len(map.width as nat, 4);
    lemma_le_bytes_len(map.height as nat, 4);
    lemma_le_bytes_len(map.stride as nat, 4);
    lemma_le_bytes_len(map.slot_bytes as nat, 4);
    lemma_le_round_trip(map.width as nat, 4);
    lemma_le_round_trip(map.height as nat, 4);
    lemma_le_round_trip(map.stride as nat, 4);
    lemma_le_round_trip(map.slot_bytes as nat, 4);
    assert(s.subrange(0, 8) =~= magic());
    assert(s.subrange(8, 12) =~= le_bytes(map.width as nat, 4));
    assert(s.subrange(12, 16) =~= le_bytes(map.height as nat, 4));
    assert(s.subrange(16, 20) =~= le_bytes(map.stride as nat, 4));
    assert(s.subrange(20, 24) =~= le_bytes(map.slot_bytes as nat, 4));
}

/// After a frame was taken, its slot is free, every older visible frame is gone, and
/// every newer one is still visible.
pub proof fn law_taking_frees_older_and_keeps_newer(s: Seq<u8>, n: int, number: u64, j: int)
    requires
        s.len() >= 320,
        0 <= n < 3,
        0 <= j < 3,
        slot_state(s, n) == FREE,
    ensures
        ({
            let t = without_older(s, n, number, 3);
            &&& slot_state(t, n) == FREE
            &&& j != n && slot_state(s, j) == READY && slot_number(s, j) < number ==> slot_state(
                t,
                j,
            ) == FREE
            &&& j != n && !(slot_state(s, j) == READY && slot_number(s, j) < number) ==> slot_state(
                t,
                j,
            ) == slot_state(s, j)
        }),
{
    reveal_with_fuel(without_older, 4);
}

} // verus!
