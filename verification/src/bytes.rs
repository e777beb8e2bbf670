//! Fixed-width integers as bytes, in both byte orders.
//!
//! The little-endian and big-endian encodings are defined by recursion on the
//! width, so one statement serves every integer size on the wire.
use vstd::prelude::*;

verus! {

/// `256` to the power `width`: how many values fit in `width` bytes.
pub open spec fn pow256(width: nat) -> nat
    decreases width,
{
    if width == 0 {
        1
    } else {
        256 * pow256((width - 1) as nat)
    }
}

/// The number whose least significant byte comes first in `s`.
pub open spec fn le_value(s: Seq<u8>) -> nat
    decreases s.len(),
{
    if s.len() == 0 {
        0
    } else {
        s[0] as nat + 256 * le_value(s.drop_first())
    }
}

/// The `width` low bytes of `v`, least significant first.
pub open spec fn le_bytes(v: nat, width: nat) -> Seq<u8>
    decreases width,
{
    if width == 0 {
        Seq::empty()
    } else {
        seq![(v % 256) as u8] + le_bytes(v / 256, (width - 1) as nat)
    }
}

/// The number whose most significant byte comes first in `s`.
pub open spec fn be_value(s: Seq<u8>) -> nat
    decreases s.len(),
{
    if s.len() == 0 {
        0
    } else {
        256 * be_value(s.drop_last()) + s.last() as nat
    }
}

/// The `width` low bytes of `v`, most significant first.
pub open spec fn be_bytes(v: nat, width: nat) -> Seq<u8>
    decreases width,
{
    if width == 0 {
        Seq::empty()
    } else {
        be_bytes(v / 256, (width - 1) as nat).push((v % 256) as u8)
    }
}

/// The array with these elements.
pub open spec fn array_of<T, const N: usize>(s: Seq<T>) -> [T; N] {
    choose|a: [T; N]| a@ == s
}

/// An array is the array of its elements.
pub broadcast proof fn lemma_array_of<T, const N: usize>(a: [T; N])
    ensures
        #[trigger] array_of::<T, N>(a@) == a,
{
    let found = array_of::<T, N>(a@);
    assert(found@ == a@);
    assert(found =~= a);
}

proof fn lemma_array_prefix<T, const N: usize>(s: Seq<T>, n: nat) -> (a: [T; N])
    requires
        s.len() == N,
        n <= N,
    ensures
        forall|i: int| 0 <= i < n ==> #[trigger] a@[i] == s[i],
    decreases n,
{
    if n == 0 {
        arbitrary()
    } else {
        let shorter: [T; N] = lemma_array_prefix::<T, N>(s, (n - 1) as nat);
        let a = vstd::array::spec_array_update(shorter, n - 1, s[n - 1]);
        assert(a@ == shorter@.update(n - 1, s[n - 1]));
        a
    }
}

/// Every sequence of the right length is the contents of an array.
pub proof fn lemma_array_exists<T, const N: usize>(s: Seq<T>)
    requires
        s.len() == N,
    ensures
        array_of::<T, N>(s)@ == s,
{
    let a: [T; N] = lemma_array_prefix::<T, N>(s, N as nat);
    assert(a@ =~= s);
}

/// The powers that bound the integer types on the wire.
pub proof fn lemma_pow256_values()
    ensures
        pow256(1) == 0x100,
        pow256(2) == 0x1_0000,
        pow256(4) == 0x1_0000_0000,
        pow256(8) == 0x1_0000_0000_0000_0000,
{
    reveal_with_fuel(pow256, 9);
}

/// `pow256` never decreases.
pub proof fn lemma_pow256_increases(a: nat, b: nat)
    requires
        a <= b,
    ensures
        0 < pow256(a) <= pow256(b),
    decreases b,
{
    if a < b {
        lemma_pow256_increases(a, (b - 1) as nat);
    } else if a > 0 {
        lemma_pow256_increases((a - 1) as nat, (a - 1) as nat);
    }
}

/// An encoding has exactly its width, in either byte order.
pub broadcast proof fn lemma_le_bytes_len(v: nat, width: nat)
    ensures
        #[trigger] le_bytes(v, width).len() == width,
    decreases width,
{
    if width > 0 {
        lemma_le_bytes_len(v / 256, (width - 1) as nat);
    }
}

/// An encoding has exactly its width, in either byte order.
pub broadcast proof fn lemma_be_bytes_len(v: nat, width: nat)
    ensures
        #[trigger] be_bytes(v, width).len() == width,
    decreases width,
{
    if width > 0 {
        lemma_be_bytes_len(v / 256, (width - 1) as nat);
    }
}

/// A sequence of bytes denotes a number below the bound of its width.
pub proof fn lemma_le_value_bound(s: Seq<u8>)
    ensures
        le_value(s) < pow256(s.len()),
    decreases s.len(),
{
    if s.len() > 0 {
        lemma_le_value_bound(s.drop_first());
    }
}

/// A sequence of bytes denotes a number below the bound of its width.
pub proof fn lemma_be_value_bound(s: Seq<u8>)
    ensures
        be_value(s) < pow256(s.len()),
    decreases s.len(),
{
    if s.len() > 0 {
        lemma_be_value_bound(s.drop_last());
    }
}

/// Reading a little-endian encoding gives back the number that was written.
pub proof fn lemma_le_round_trip(v: nat, width: nat)
    requires
        v < pow256(width),
    ensures
        le_value(le_bytes(v, width)) == v,
    decreases width,
{
    if width > 0 {
        let tail = le_bytes(v / 256, (width - 1) as nat);
        lemma_le_round_trip(v / 256, (width - 1) as nat);
        assert(le_bytes(v, width).drop_first() =~= tail);
    }
}

/// Writing the number that a little-endian sequence denotes gives back the sequence.
pub proof fn lemma_le_canonical(s: Seq<u8>)
    ensures
        le_bytes(le_value(s), s.len()) == s,
    decreases s.len(),
{
    if s.len() > 0 {
        lemma_le_canonical(s.drop_first());
        let v = le_value(s);
        assert(v % 256 == s[0] as nat && v / 256 == le_value(s.drop_first())) by {
            assert(v == s[0] as nat + 256 * le_value(s.drop_first()));
        }
        assert(le_bytes(v, s.len()) =~= seq![s[0]] + s.drop_first());
    }
    assert(le_bytes(le_value(s), s.len()) =~= s);
}

/// Reading a big-endian encoding gives back the number that was written.
pub proof fn lemma_be_round_trip(v: nat, width: nat)
    requires
        v < pow256(width),
    ensures
        be_value(be_bytes(v, width)) == v,
    decreases width,
{
    if width > 0 {
        lemma_be_round_trip(v / 256, (width - 1) as nat);
        assert(be_bytes(v, width).drop_last() =~= be_bytes(v / 256, (width - 1) as nat));
    }
}

/// Writing the number that a big-endian sequence denotes gives back the sequence.
pub proof fn lemma_be_canonical(s: Seq<u8>)
    ensures
        be_bytes(be_value(s), s.len()) == s,
    decreases s.len(),
{
    if s.len() > 0 {
        lemma_be_canonical(s.drop_last());
        let v = be_value(s);
        assert(v % 256 == s.last() as nat && v / 256 == be_value(s.drop_last())) by {
            assert(v == 256 * be_value(s.drop_last()) + s.last() as nat);
        }
        assert(be_bytes(v, s.len()) =~= s.drop_last().push(s.last()));
    }
    assert(be_bytes(be_value(s), s.len()) =~= s);
}

/// Appends the `width` low bytes of `v`, least significant first.
pub fn put_le(out: &mut Vec<u8>, v: u64, width: usize)
    requires
        width <= 8,
    ensures
        final(out)@ == old(out)@ + le_bytes(v as nat, width as nat),
    decreases width,
{
    if width > 0 {
        let low: u8 = (v % 256) as u8;
        let ghost before = out@;
        out.push(low);
        put_le(out, v / 256, width - 1);
        assert(out@ =~= before + (seq![low] + le_bytes((v / 256) as nat, (width - 1) as nat)));
    }
    assert(le_bytes(v as nat, 0) =~= Seq::empty());
}

/// Appends the `width` low bytes of `v`, most significant first.
pub fn put_be(out: &mut Vec<u8>, v: u64, width: usize)
    requires
        width <= 8,
    ensures
        final(out)@ == old(out)@ + be_bytes(v as nat, width as nat),
    decreases width,
{
    if width > 0 {
        let low: u8 = (v % 256) as u8;
        let ghost before = out@;
        put_be(out, v / 256, width - 1);
        out.push(low);
        assert(out@ =~= before + be_bytes(v as nat, width as nat));
    }
    assert(be_bytes(v as nat, 0) =~= Seq::empty());
}

/// Reads `width` bytes at `at`, least significant first.
pub fn get_le(bytes: &[u8], at: usize, width: usize) -> (v: u64)
    requires
        width <= 8,
        at + width <= bytes@.len(),
    ensures
        v as nat == le_value(bytes@.subrange(at as int, at + width)),
        v < pow256(width as nat),
    decreases width,
{
    let ghost s = bytes@.subrange(at as int, at + width);
    proof {
        lemma_le_value_bound(s);
        lemma_pow256_increases(width as nat, 8);
        lemma_pow256_values();
    }
    if width == 0 {
        0
    } else {
        assert(at + width <= bytes.len());
        let rest: u64 = get_le(bytes, at + 1, width - 1);
        assert(s.drop_first() =~= bytes@.subrange(at + 1, at + width));
        bytes[at] as u64 + 256 * rest
    }
}

/// Reads `width` bytes at `at`, most significant first.
pub fn get_be(bytes: &[u8], at: usize, width: usize) -> (v: u64)
    requires
        width <= 8,
        at + width <= bytes@.len(),
    ensures
        v as nat == be_value(bytes@.subrange(at as int, at + width)),
        v < pow256(width as nat),
    decreases width,
{
    let ghost s = bytes@.subrange(at as int, at + width);
    proof {
        lemma_be_value_bound(s);
        lemma_pow256_increases(width as nat, 8);
        lemma_pow256_values();
    }
    if width == 0 {
        0
    } else {
        assert(at + width <= bytes.len());
        let rest: u64 = get_be(bytes, at, width - 1);
        assert(s.drop_last() =~= bytes@.subrange(at as int, at + width - 1));
        256 * rest + bytes[at + width - 1] as u64
    }
}

/// Appends every byte of `tail`.
pub fn append_slice(out: &mut Vec<u8>, tail: &[u8])
    ensures
        final(out)@ == old(out)@ + tail@,
{
    let ghost before = out@;
    let mut i: usize = 0;
    while i < tail.len()
        invariant
            i <= tail@.len(),
            out@ == before + tail@.subrange(0, i as int),
        decreases tail@.len() - i,
    {
        out.push(tail[i]);
        i += 1;
        assert(tail@.subrange(0, i as int) =~= tail@.subrange(0, i - 1).push(tail@[i - 1]));
    }
    assert(tail@.subrange(0, i as int) =~= tail@);
}

/// Copies `bytes[from..to]`.
pub fn copy_range(bytes: &[u8], from: usize, to: usize) -> (r: Vec<u8>)
    requires
        from <= to <= bytes@.len(),
    ensures
        r@ == bytes@.subrange(from as int, to as int),
{
    let mut r: Vec<u8> = Vec::new();
    let mut i: usize = from;
    while i < to
        invariant
            from <= i <= to <= bytes@.len(),
            r@ == bytes@.subrange(from as int, i as int),
        decreases to - i,
    {
        r.push(bytes[i]);
        i += 1;
        assert(bytes@.subrange(from as int, i as int) =~= bytes@.subrange(
            from as int,
            i - 1,
        ).push(bytes@[i - 1]));
    }
    r
}

/// A copy of all bytes.
pub fn copy_bytes(s: &[u8]) -> (r: Vec<u8>)
    ensures
        r@ == s@,
{
    let r: Vec<u8> = copy_range(s, 0, s.len());
    assert(r@ =~= s@);
    r
}

/// Whether two byte strings are equal.
pub fn same_bytes(a: &[u8], b: &[u8]) -> (same: bool)
    ensures
        same == (a@ == b@),
{
    if a.len() != b.len() {
        return false;
    }
    let mut i: usize = 0;
    while i < a.len()
        invariant
            i <= a@.len() == b@.len(),
            a@.subrange(0, i as int) == b@.subrange(0, i as int),
        decreases a@.len() - i,
    {
        if a[i] != b[i] {
            assert(a@[i as int] != b@[i as int]);
            return false;
        }
        i += 1;
        assert(a@.subrange(0, i as int) =~= a@.subrange(0, i - 1).push(a@[i - 1]));
        assert(b@.subrange(0, i as int) =~= b@.subrange(0, i - 1).push(b@[i - 1]));
    }
    assert(a@ =~= a@.subrange(0, i as int));
    assert(b@ =~= b@.subrange(0, i as int));
    true
}

} // verus!
