//! Text as bytes: parts between separators, and what is text at all.
use vstd::prelude::*;
use vstd::utf8::{pop_first_scalar, valid_utf8};

verus! {

/// Whether bytes are text.
///
/// `std::str::from_utf8` accepts exactly the bytes that are valid UTF-8; what it takes
/// them for is not used.
#[verifier::external_body]
pub(crate) fn is_utf8(bytes: &[u8]) -> (r: bool)
    ensures
        r == valid_utf8(bytes@),
{
    std::str::from_utf8(bytes).is_ok()
}

/// The characters with the Unicode property `White_Space`.
pub open spec fn white_space(c: char) -> bool {
    ||| 0x09 <= c as int <= 0x0d
    ||| c as int == 0x20
    ||| c as int == 0x85
    ||| c as int == 0xa0
    ||| c as int == 0x1680
    ||| 0x2000 <= c as int <= 0x200a
    ||| c as int == 0x2028
    ||| c as int == 0x2029
    ||| c as int == 0x202f
    ||| c as int == 0x205f
    ||| c as int == 0x3000
}

/// A text without the white space around it.
pub open spec fn trimmed(s: Seq<char>) -> Seq<char>
    decreases s.len(),
{
    if s.len() == 0 {
        s
    } else if white_space(s.first()) {
        trimmed(s.drop_first())
    } else if white_space(s.last()) {
        trimmed(s.drop_last())
    } else {
        s
    }
}

/// `str::trim` removes leading and trailing white space, which it documents as the
/// characters with the Unicode property `White_Space`.
pub assume_specification[ str::trim ](s: &str) -> (r: &str)
    ensures
        r@ == trimmed(s@),
;

/// The parts between separators. There is always at least one.
pub open spec fn split(s: Seq<u8>, separator: u8) -> Seq<Seq<u8>>
    decreases s.len(),
{
    if s.len() == 0 {
        seq![Seq::empty()]
    } else {
        let parts = split(s.drop_last(), separator);
        if s.last() == separator {
            parts.push(Seq::empty())
        } else {
            parts.drop_last().push(parts.last().push(s.last()))
        }
    }
}

/// Parts with a separator between them.
pub open spec fn join(parts: Seq<Seq<u8>>, separator: u8) -> Seq<u8>
    decreases parts.len(),
{
    if parts.len() == 0 {
        Seq::empty()
    } else if parts.len() == 1 {
        parts[0]
    } else {
        join(parts.drop_last(), separator).push(separator) + parts.last()
    }
}

/// A byte does not occur.
pub open spec fn lacks(s: Seq<u8>, b: u8) -> bool {
    forall|i: int| 0 <= i < s.len() ==> #[trigger] s[i] != b
}

/// Parts are joined to what they were split from, and none holds the separator.
pub proof fn law_split_parts_join(s: Seq<u8>, separator: u8)
    ensures
        split(s, separator).len() >= 1,
        join(split(s, separator), separator) == s,
        forall|i: int|
            0 <= i < split(s, separator).len() ==> lacks(
                #[trigger] split(s, separator)[i],
                separator,
            ),
    decreases s.len(),
{
    if s.len() > 0 {
        let head = s.drop_last();
        law_split_parts_join(head, separator);
        let parts = split(head, separator);
        let all = split(s, separator);
        if s.last() == separator {
            assert(all.drop_last() =~= parts);
            assert(join(all, separator) =~= s);
        } else {
            assert(all.drop_last() =~= parts.drop_last());
            assert(all.last() == parts.last().push(s.last()));
            if parts.len() == 1 {
                assert(all.len() == 1 && parts[0] == head);
                assert(head.push(s.last()) =~= s);
            } else {
                let front = join(parts.drop_last(), separator).push(separator);
                assert(join(all, separator) == front + all.last());
                assert(head == front + parts.last());
                assert(front + parts.last().push(s.last()) =~= head.push(s.last()));
                assert(head.push(s.last()) =~= s);
            }
            assert(lacks(parts[parts.len() - 1], separator));
            assert forall|i: int| 0 <= i < all.len() implies lacks(
                #[trigger] all[i],
                separator,
            ) by {
                if i < all.len() - 1 {
                    assert(all[i] == parts[i]);
                }
            }
        }
    } else {
        assert(split(s, separator)[0] =~= s);
    }
}

/// Behind a separator, a text without one is a part of its own.
pub proof fn lemma_split_append(head: Seq<u8>, tail: Seq<u8>, separator: u8)
    requires
        lacks(tail, separator),
    ensures
        split(head.push(separator) + tail, separator) == split(head, separator).push(tail),
    decreases tail.len(),
{
    let whole = head.push(separator) + tail;
    if tail.len() == 0 {
        assert(whole =~= head.push(separator));
        assert(whole.drop_last() =~= head);
        assert(tail =~= Seq::empty());
    } else {
        let less = tail.drop_last();
        assert forall|i: int| 0 <= i < less.len() implies #[trigger] less[i] != separator by {
            assert(less[i] == tail[i]);
        }
        lemma_split_append(head, less, separator);
        assert(whole.drop_last() =~= head.push(separator) + less);
        assert(tail[tail.len() - 1] != separator);
        let parts = split(head, separator).push(less);
        assert(parts.drop_last() =~= split(head, separator));
        assert(less.push(tail.last()) =~= tail);
    }
}

proof fn lemma_split_single(s: Seq<u8>, separator: u8)
    requires
        lacks(s, separator),
    ensures
        split(s, separator) == seq![s],
    decreases s.len(),
{
    if s.len() == 0 {
        assert(s =~= Seq::empty());
    } else {
        let less = s.drop_last();
        assert forall|i: int| 0 <= i < less.len() implies #[trigger] less[i] != separator by {
            assert(less[i] == s[i]);
        }
        lemma_split_single(less, separator);
        assert(s[s.len() - 1] != separator);
        assert(less.push(s.last()) =~= s);
        assert(split(s, separator) =~= seq![s]);
    }
}

/// Parts that lack the separator are split as they were joined.
pub proof fn law_joined_parts_split(parts: Seq<Seq<u8>>, separator: u8)
    requires
        parts.len() >= 1,
        forall|i: int| 0 <= i < parts.len() ==> lacks(#[trigger] parts[i], separator),
    ensures
        split(join(parts, separator), separator) == parts,
    decreases parts.len(),
{
    if parts.len() == 1 {
        lemma_split_single(parts[0], separator);
        assert(seq![parts[0]] =~= parts);
    } else {
        let less = parts.drop_last();
        assert forall|i: int| 0 <= i < less.len() implies lacks(#[trigger] less[i], separator) by {
            assert(less[i] == parts[i]);
        }
        law_joined_parts_split(less, separator);
        lemma_split_append(join(less, separator), parts[parts.len() - 1], separator);
        assert(less.push(parts.last()) =~= parts);
    }
}

/// The views of some parts.
pub open spec fn part_views(parts: Seq<Vec<u8>>) -> Seq<Seq<u8>> {
    parts.map_values(|p: Vec<u8>| p@)
}

/// The parts between separators.
pub fn split_bytes(s: &[u8], separator: u8) -> (parts: Vec<Vec<u8>>)
    ensures
        part_views(parts@) == split(s@, separator),
        parts@.len() >= 1,
{
    let mut parts: Vec<Vec<u8>> = Vec::new();
    let mut part: Vec<u8> = Vec::new();
    let mut i: usize = 0;
    assert(part_views(parts@).push(part@) =~= split(s@.take(0), separator));
    while i < s.len()
        invariant
            i <= s@.len(),
            part_views(parts@).push(part@) == split(s@.take(i as int), separator),
        decreases s@.len() - i,
    {
        let b: u8 = s[i];
        proof {
            assert(s@.take(i + 1).drop_last() =~= s@.take(i as int));
            assert(s@.take(i + 1).last() == b);
            let now = part_views(parts@).push(part@);
            assert(now.drop_last() =~= part_views(parts@));
        }
        if b == separator {
            let ghost before = part_views(parts@).push(part@);
            parts.push(part);
            part = Vec::new();
            assert(part_views(parts@) =~= before);
            assert(part@ =~= Seq::empty());
        } else {
            part.push(b);
        }
        i += 1;
    }
    assert(s@.take(i as int) =~= s@);
    let ghost before = part_views(parts@).push(part@);
    parts.push(part);
    assert(part_views(parts@) =~= before);
    parts
}

/// Bytes below the eighth bit are text.
pub proof fn lemma_ascii_is_text(s: Seq<u8>)
    requires
        forall|i: int| 0 <= i < s.len() ==> #[trigger] s[i] < 0x80,
    ensures
        valid_utf8(s),
    decreases s.len(),
{
    if s.len() > 0 {
        let rest = s.drop_first();
        assert forall|i: int| 0 <= i < rest.len() implies #[trigger] rest[i] < 0x80 by {
            assert(rest[i] == s[i + 1]);
        }
        lemma_ascii_is_text(rest);
        assert(pop_first_scalar(s) =~= rest);
    }
}

} // verus!
