//! The machine-readable marker that a fixture paints into a frame.
//!
//! A marker is a packet of 408 bytes, painted as cells of two by two pixels.
//! It carries an identity and a checksum; neither proves who painted it.
use vstd::prelude::*;

use crate::bytes::{array_of, be_value, copy_range, get_be, lemma_array_exists};
use crate::hardware::{FrameView, LogicalFrame};

verus! {

/// Bytes in a marker packet.
pub const PACKET_BYTES: usize = 408;

/// Cells in a painted marker, one per bit of the packet.
pub const CELLS: usize = 3264;

/// The largest frame that is searched for a marker.
pub const MAX_FRAME_BYTES: usize = 16_777_216;

/// The longest identity that a packet can hold.
pub const MAX_IDENTITY: usize = 128;

/// Why a frame yields no marker.
#[derive(Clone, Copy, Debug, PartialEq, Eq, Structural)]
pub enum DecodeError {
    Geometry,
    Cell,
    Packet,
}

/// Letters, digits, `_`, `-` and `.`: what an identity is made of.
pub open spec fn identity_byte(b: u8) -> bool {
    (0x30 <= b <= 0x39) || (0x41 <= b <= 0x5a) || (0x61 <= b <= 0x7a) || b == 0x5f || b == 0x2d || b
        == 0x2e
}

/// Whether every byte may stand in an identity.
pub open spec fn identity_bytes(s: Seq<u8>) -> bool {
    forall|i: int| 0 <= i < s.len() ==> identity_byte(#[trigger] s[i])
}

/// Whether `b` may stand in an identity.
pub fn is_identity_byte(b: u8) -> (r: bool)
    ensures
        r == identity_byte(b),
{
    (0x30 <= b && b <= 0x39) || (0x41 <= b && b <= 0x5a) || (0x61 <= b && b <= 0x7a) || b == 0x5f
        || b == 0x2d || b == 0x2e
}

/// Whether every byte of `s` may stand in an identity.
pub fn are_identity_bytes(s: &[u8]) -> (r: bool)
    ensures
        r == identity_bytes(s@),
{
    let mut i: usize = 0;
    while i < s.len()
        invariant
            i <= s@.len(),
            forall|j: int| 0 <= j < i ==> identity_byte(#[trigger] s@[j]),
        decreases s@.len() - i,
    {
        if !is_identity_byte(s[i]) {
            assert(!identity_byte(s@[i as int]));
            return false;
        }
        i += 1;
    }
    true
}

/// One step of the reflected CRC-32 with polynomial `0xedb88320`.
pub open spec fn crc_bit(crc: u32) -> u32 {
    if crc & 1 == 1 {
        (crc >> 1) ^ 0xedb8_8320
    } else {
        crc >> 1
    }
}

/// The register after `n` steps.
pub open spec fn crc_bits(crc: u32, n: nat) -> u32
    decreases n,
{
    if n == 0 {
        crc
    } else {
        crc_bit(crc_bits(crc, (n - 1) as nat))
    }
}

/// The register after all bytes of `s`, from all ones.
pub open spec fn crc_register(s: Seq<u8>) -> u32
    decreases s.len(),
{
    if s.len() == 0 {
        0xffff_ffff
    } else {
        crc_bits(crc_register(s.drop_last()) ^ (s.last() as u32), 8)
    }
}

/// The CRC-32 of a byte string.
pub open spec fn crc32(s: Seq<u8>) -> u32 {
    crc_register(s) ^ 0xffff_ffff
}

/// The CRC-32 of the first `n` bytes of `s`.
pub fn checksum(s: &[u8], n: usize) -> (crc: u32)
    requires
        n <= s@.len(),
    ensures
        crc == crc32(s@.subrange(0, n as int)),
{
    let mut crc: u32 = 0xffff_ffff;
    let mut i: usize = 0;
    assert(s@.subrange(0, 0) =~= Seq::empty());
    while i < n
        invariant
            i <= n <= s@.len(),
            crc == crc_register(s@.subrange(0, i as int)),
        decreases n - i,
    {
        let ghost start = crc ^ (s@[i as int] as u32);
        crc = crc ^ (s[i] as u32);
        let mut k: u8 = 0;
        while k < 8
            invariant
                k <= 8,
                crc == crc_bits(start, k as nat),
            decreases 8 - k,
        {
            if crc & 1 == 1 {
                crc = (crc >> 1) ^ 0xedb8_8320;
            } else {
                crc = crc >> 1;
            }
            k += 1;
        }
        i += 1;
        assert(s@.subrange(0, i as int).drop_last() =~= s@.subrange(0, i - 1));
    }
    crc ^ 0xffff_ffff
}

/// An identity field: its length at `length_at`, its bytes from `start`, zeros
/// after them.
pub open spec fn field_ok(p: Seq<u8>, length_at: int, start: int, nullable: bool) -> bool {
    let length = p[length_at] as int;
    &&& length <= MAX_IDENTITY
    &&& nullable || length > 0
    &&& identity_bytes(p.subrange(start, start + length))
    &&& forall|i: int| start + length <= i < start + MAX_IDENTITY ==> #[trigger] p[i] == 0
}

/// The bytes with which a packet starts.
pub open spec fn packet_magic() -> Seq<u8> {
    seq![0x53, 0x4c, 0x56, 0x4d, 0x52, 0x4b, 0x30, 0x30]
}

/// A packet is well formed: magic, a frame number in the range of a signed
/// integer, a run and a generation, an optional input, and their checksum.
pub open spec fn valid_packet(p: Seq<u8>) -> bool {
    &&& p.len() == PACKET_BYTES
    &&& p.subrange(0, 8) == packet_magic()
    &&& p[19] == 0
    &&& 1 <= be_value(p.subrange(8, 16)) <= i64::MAX
    &&& field_ok(p, 16, 20, false)
    &&& field_ok(p, 17, 148, false)
    &&& field_ok(p, 18, 276, true)
    &&& crc32(p.subrange(0, 404)) == be_value(p.subrange(404, 408))
}

/// A well-formed marker packet.
#[derive(Clone, Copy, Debug)]
pub struct Marker {
    packet: [u8; 408],
}

impl View for Marker {
    type V = Seq<u8>;

    closed spec fn view(&self) -> Seq<u8> {
        self.packet@
    }
}

impl Marker {
    #[verifier::type_invariant]
    closed spec fn well_formed(self) -> bool {
        valid_packet(self.packet@)
    }

    /// The packet.
    pub fn bytes(&self) -> (r: &[u8; 408])
        ensures
            r@ == self@,
            valid_packet(self@),
    {
        proof {
            use_type_invariant(self);
        }
        &self.packet
    }

    /// The run that the marker names.
    pub fn run_id(&self) -> (r: Vec<u8>)
        ensures
            r@ == self@.subrange(20, 20 + self@[16]),
    {
        proof {
            use_type_invariant(self);
        }
        copy_range(self.packet.as_slice(), 20, 20 + self.packet[16] as usize)
    }

    /// The generation that the marker names.
    pub fn generation(&self) -> (r: Vec<u8>)
        ensures
            r@ == self@.subrange(148, 148 + self@[17]),
    {
        proof {
            use_type_invariant(self);
        }
        copy_range(self.packet.as_slice(), 148, 148 + self.packet[17] as usize)
    }

    /// The input that the marker answers, if it names one.
    pub fn input_id(&self) -> (r: Option<Vec<u8>>)
        ensures
            r is Some == (self@[18] != 0),
            r matches Some(id) ==> id@ == self@.subrange(276, 276 + self@[18]),
    {
        proof {
            use_type_invariant(self);
        }
        if self.packet[18] != 0 {
            Some(copy_range(self.packet.as_slice(), 276, 276 + self.packet[18] as usize))
        } else {
            None
        }
    }

    /// The number of the frame.
    pub fn frame_id(&self) -> (r: u64)
        ensures
            r == be_value(self@.subrange(8, 16)),
            1 <= r <= i64::MAX,
    {
        proof {
            use_type_invariant(self);
        }
        get_be(self.packet.as_slice(), 8, 8)
    }
}

/// Markers with the same packet are the same marker.
pub proof fn lemma_marker_ext(a: Marker, b: Marker)
    requires
        a@ == b@,
    ensures
        a == b,
{
    assert(a.packet =~= b.packet);
}

/// The marker with this packet.
pub open spec fn marker_of(packet: Seq<u8>) -> Marker {
    choose|m: Marker| m@ == packet
}

/// A marker is the marker of its packet.
pub broadcast proof fn lemma_marker_of(m: Marker)
    ensures
        #[trigger] marker_of(m@) == m,
{
    lemma_marker_ext(marker_of(m@), m);
}

/// Every packet-sized byte string is the packet of a marker value.
pub proof fn lemma_marker_exists(packet: Seq<u8>)
    requires
        packet.len() == PACKET_BYTES,
    ensures
        marker_of(packet)@ == packet,
{
    lemma_array_exists::<u8, 408>(packet);
    let m = Marker { packet: array_of(packet) };
    assert(m@ == packet);
}

fn check_field(p: &[u8; 408], length_at: usize, start: usize, nullable: bool) -> (ok: bool)
    requires
        length_at < 408,
        start + 128 <= 408,
    ensures
        ok == field_ok(p@, length_at as int, start as int, nullable),
{
    let length: usize = p[length_at] as usize;
    if length > 128 || (!nullable && length == 0) {
        return false;
    }
    let mut i: usize = start;
    while i < start + length
        invariant
            start <= i <= start + length,
            length <= 128,
            length_at < 408,
            length == p@[length_at as int],
            start + 128 <= 408,
            forall|j: int| start <= j < i ==> identity_byte(#[trigger] p@[j]),
        decreases start + length - i,
    {
        if !is_identity_byte(p[i]) {
            proof {
                let field = p@.subrange(start as int, start + length);
                assert(field[i - start] == p@[i as int]);
            }
            return false;
        }
        i += 1;
    }
    while i < start + 128
        invariant
            start + length <= i <= start + 128,
            length <= 128,
            length_at < 408,
            length == p@[length_at as int],
            start + 128 <= 408,
            forall|j: int| start + length <= j < i ==> #[trigger] p@[j] == 0,
        decreases start + 128 - i,
    {
        if p[i] != 0 {
            return false;
        }
        i += 1;
    }
    true
}

fn check_magic(p: &[u8; 408]) -> (ok: bool)
    ensures
        ok == (p@.subrange(0, 8) == packet_magic()),
{
    let ok: bool = p[0] == 0x53 && p[1] == 0x4c && p[2] == 0x56 && p[3] == 0x4d && p[4] == 0x52
        && p[5] == 0x4b && p[6] == 0x30 && p[7] == 0x30;
    proof {
        let head = p@.subrange(0, 8);
        if ok {
            assert(head =~= packet_magic());
        } else {
            assert(head[0] == p@[0] && head[1] == p@[1] && head[2] == p@[2] && head[3] == p@[3]
                && head[4] == p@[4] && head[5] == p@[5] && head[6] == p@[6] && head[7] == p@[7]);
            assert(packet_magic()[0] == 0x53 && packet_magic()[1] == 0x4c && packet_magic()[2]
                == 0x56 && packet_magic()[3] == 0x4d && packet_magic()[4] == 0x52
                && packet_magic()[5] == 0x4b && packet_magic()[6] == 0x30 && packet_magic()[7]
                == 0x30);
        }
    }
    ok
}

/// Accepts exactly the well-formed packets.
pub fn decode_packet(packet: [u8; 408]) -> (r: Result<Marker, DecodeError>)
    ensures
        r is Ok == valid_packet(packet@),
        r matches Ok(marker) ==> marker@ == packet@,
        r matches Err(e) ==> e == DecodeError::Packet,
{
    let frame_id: u64 = get_be(packet.as_slice(), 8, 8);
    let stored: u64 = get_be(packet.as_slice(), 404, 4);
    if !check_magic(&packet) || packet[19] != 0 || frame_id < 1 || frame_id > 0x7fff_ffff_ffff_ffff {
        return Err(DecodeError::Packet);
    }
    if !check_field(&packet, 16, 20, false) || !check_field(&packet, 17, 148, false)
        || !check_field(&packet, 18, 276, true) {
        return Err(DecodeError::Packet);
    }
    if checksum(packet.as_slice(), 404) as u64 != stored {
        return Err(DecodeError::Packet);
    }
    Ok(Marker { packet })
}

/// A frame that can carry a marker: the panel's size, whole pixels, whole rows.
pub open spec fn marker_geometry(f: FrameView) -> bool {
    &&& f.width == 2008
    &&& f.height == 60
    &&& f.stride >= 8032
    &&& f.stride % 4 == 0
    &&& f.pixels.len() <= MAX_FRAME_BYTES
    &&& f.stride * 60 == f.pixels.len()
}

/// Where the four bytes of a pixel start.
pub open spec fn pixel_at(f: FrameView, x: int, y: int) -> int {
    y * f.stride + x * 4
}

/// A pixel is opaque with all three colours at `level`.
pub open spec fn pixel_is(f: FrameView, x: int, y: int, level: u8) -> bool {
    let at = pixel_at(f, x, y);
    &&& f.pixels[at] == level
    &&& f.pixels[at + 1] == level
    &&& f.pixels[at + 2] == level
    &&& f.pixels[at + 3] == 255
}

/// The column of a cell's left pixels.
pub open spec fn cell_x(cell: int) -> int {
    188 + cell % 816 * 2
}

/// The row of a cell's upper pixels.
pub open spec fn cell_y(cell: int) -> int {
    4 + cell / 816 * 2
}

/// All four pixels of a cell are at `level`.
pub open spec fn cell_is(f: FrameView, cell: int, level: u8) -> bool {
    &&& pixel_is(f, cell_x(cell), cell_y(cell), level)
    &&& pixel_is(f, cell_x(cell) + 1, cell_y(cell), level)
    &&& pixel_is(f, cell_x(cell), cell_y(cell) + 1, level)
    &&& pixel_is(f, cell_x(cell) + 1, cell_y(cell) + 1, level)
}

/// Every cell is all black or all white.
pub open spec fn cells_clean(f: FrameView, n: int) -> bool {
    forall|cell: int| 0 <= cell < n ==> #[trigger] cell_is(f, cell, 0) || cell_is(f, cell, 255)
}

/// The number whose bits are the `n` cells from `start`: white is one, the first
/// cell is the most significant.
pub open spec fn cell_bits(f: FrameView, start: int, n: int) -> int
    decreases n,
{
    if n <= 0 {
        0
    } else {
        2 * cell_bits(f, start, n - 1) + if cell_is(f, start + n - 1, 255) {
            1int
        } else {
            0
        }
    }
}

/// The packet that a frame's cells spell.
pub open spec fn painted_packet(f: FrameView) -> Seq<u8> {
    Seq::new(408, |k: int| cell_bits(f, 8 * k, 8) as u8)
}

fn pixel_level(frame: &LogicalFrame, x: usize, y: usize) -> (r: Option<u8>)
    requires
        marker_geometry(frame@),
        x < 2008,
        y < 60,
    ensures
        r is Some <==> (pixel_is(frame@, x as int, y as int, 0) || pixel_is(
            frame@,
            x as int,
            y as int,
            255,
        )),
        r matches Some(level) ==> (level == 0 || level == 255) && pixel_is(
            frame@,
            x as int,
            y as int,
            level,
        ),
{
    let pixels: &[u8] = frame.pixels();
    let n: usize = pixels.len();
    let stride: usize = frame.stride();
    assert(0 <= y * stride <= 59 * stride) by (nonlinear_arith)
        requires
            y <= 59,
    ;
    let at: usize = y * stride + x * 4;
    assert(at + 4 <= n);
    let level: u8 = pixels[at];
    if (level == 0 || level == 255) && pixels[at + 1] == level && pixels[at + 2] == level
        && pixels[at + 3] == 255 {
        Some(level)
    } else {
        None
    }
}

fn cell_level(frame: &LogicalFrame, cell: usize) -> (r: Option<u8>)
    requires
        marker_geometry(frame@),
        cell < 3264,
    ensures
        r is Some <==> (cell_is(frame@, cell as int, 0) || cell_is(frame@, cell as int, 255)),
        r matches Some(level) ==> (level == 0 || level == 255) && cell_is(
            frame@,
            cell as int,
            level,
        ),
{
    let x: usize = 188 + cell % 816 * 2;
    let y: usize = 4 + cell / 816 * 2;
    let level: u8 = match pixel_level(frame, x, y) {
        Some(level) => level,
        None => {
            return None;
        },
    };
    let right: Option<u8> = pixel_level(frame, x + 1, y);
    let below: Option<u8> = pixel_level(frame, x, y + 1);
    let corner: Option<u8> = pixel_level(frame, x + 1, y + 1);
    match (right, below, corner) {
        (Some(a), Some(b), Some(c)) => {
            if a == level && b == level && c == level {
                Some(level)
            } else {
                None
            }
        },
        _ => None,
    }
}

proof fn lemma_cell_bits_bound(f: FrameView, start: int, n: int)
    requires
        0 <= n <= 8,
    ensures
        0 <= cell_bits(f, start, n) < 256,
        n < 8 ==> cell_bits(f, start, n) < 128,
        n < 7 ==> cell_bits(f, start, n) < 64,
        n < 6 ==> cell_bits(f, start, n) < 32,
        n < 5 ==> cell_bits(f, start, n) < 16,
        n < 4 ==> cell_bits(f, start, n) < 8,
        n < 3 ==> cell_bits(f, start, n) < 4,
        n < 2 ==> cell_bits(f, start, n) < 2,
        n < 1 ==> cell_bits(f, start, n) < 1,
    decreases n,
{
    if n > 0 {
        lemma_cell_bits_bound(f, start, n - 1);
    }
}

/// Reads the marker of a complete frame. Every pixel of every cell must agree.
pub fn decode(frame: &LogicalFrame) -> (r: Result<Marker, DecodeError>)
    ensures
        r matches Ok(marker) ==> marker@ == painted_packet(frame@),
        match r {
            Err(DecodeError::Geometry) => !marker_geometry(frame@),
            Err(DecodeError::Cell) => marker_geometry(frame@) && !cells_clean(frame@, 3264),
            Err(DecodeError::Packet) => marker_geometry(frame@) && cells_clean(frame@, 3264)
                && !valid_packet(painted_packet(frame@)),
            Ok(_) => marker_geometry(frame@) && cells_clean(frame@, 3264) && valid_packet(
                painted_packet(frame@),
            ),
        },
{
    let total: usize = frame.pixels().len();
    let stride: usize = frame.stride();
    if frame.width() != 2008 || frame.height() != 60 || stride < 8032 || stride % 4 != 0 || total
        > MAX_FRAME_BYTES {
        return Err(DecodeError::Geometry);
    }
    match stride.checked_mul(60) {
        Some(expected) => {
            if expected != total {
                return Err(DecodeError::Geometry);
            }
        },
        None => {
            return Err(DecodeError::Geometry);
        },
    }
    let mut packet: [u8; 408] = [0;408];
    let mut k: usize = 0;
    while k < 408
        invariant
            k <= 408,
            marker_geometry(frame@),
            cells_clean(frame@, 8 * k),
            forall|j: int| 0 <= j < k ==> #[trigger] packet@[j] == cell_bits(frame@, 8 * j, 8) as u8,
        decreases 408 - k,
    {
        let mut byte: u8 = 0;
        let mut i: usize = 0;
        while i < 8
            invariant
                i <= 8,
                k < 408,
                marker_geometry(frame@),
                cells_clean(frame@, 8 * k + i),
                byte == cell_bits(frame@, 8 * k, i as int),
            decreases 8 - i,
        {
            let cell: usize = 8 * k + i;
            proof {
                lemma_cell_bits_bound(frame@, 8 * k, i as int);
            }
            match cell_level(frame, cell) {
                Some(level) => {
                    byte = 2 * byte + if level == 255 {
                        1
                    } else {
                        0
                    };
                },
                None => {
                    assert(!cell_is(frame@, cell as int, 0) && !cell_is(frame@, cell as int, 255));
                    return Err(DecodeError::Cell);
                },
            }
            i += 1;
        }
        packet[k] = byte;
        k += 1;
    }
    assert(packet@ =~= painted_packet(frame@));
    decode_packet(packet)
}

} // verus!
