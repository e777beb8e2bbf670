//! Whole numbers in decimal, as they stand in declarations and markers.
use vstd::prelude::*;

verus! {

/// A decimal digit.
pub open spec fn is_digit(b: u8) -> bool {
    0x30 <= b <= 0x39
}

/// The digits of a number, without leading zeros.
pub open spec fn decimal(n: nat) -> Seq<u8>
    decreases n,
{
    if n < 10 {
        seq![(0x30 + n) as u8]
    } else {
        decimal(n / 10).push((0x30 + n % 10) as u8)
    }
}

/// Digits, and at least one.
pub open spec fn digits(s: Seq<u8>) -> bool {
    s.len() >= 1 && forall|i: int| 0 <= i < s.len() ==> is_digit(#[trigger] s[i])
}

/// The number that digits denote.
pub open spec fn digits_value(s: Seq<u8>) -> nat
    decreases s.len(),
{
    if s.len() == 0 {
        0
    } else {
        10 * digits_value(s.drop_last()) + (s.last() - 0x30) as nat
    }
}

/// The digits of a number denote it.
pub proof fn law_decimal_denotes_its_number(n: nat)
    ensures
        digits(decimal(n)),
        digits_value(decimal(n)) == n,
        n > 0 ==> decimal(n)[0] != 0x30,
    decreases n,
{
    if n >= 10 {
        law_decimal_denotes_its_number(n / 10);
        assert(decimal(n).drop_last() =~= decimal(n / 10));
        let s = decimal(n);
        assert forall|i: int| 0 <= i < s.len() implies is_digit(#[trigger] s[i]) by {
            if i < s.len() - 1 {
                assert(s[i] == decimal(n / 10)[i]);
            }
        }
    } else {
        assert(decimal(n).drop_last() =~= Seq::empty());
        assert(digits_value(decimal(n).drop_last()) == 0);
    }
}

/// Digits without a leading zero are the digits of the number that they denote.
pub proof fn law_decimal_is_canonical(s: Seq<u8>)
    requires
        digits(s),
        s[0] != 0x30 || s.len() == 1,
    ensures
        decimal(digits_value(s)) == s,
        s.len() > 1 ==> digits_value(s) >= 10,
    decreases s.len(),
{
    let head = s.drop_last();
    let low = (s.last() - 0x30) as nat;
    assert(is_digit(s[s.len() - 1]));
    if s.len() > 1 {
        assert forall|i: int| 0 <= i < head.len() implies is_digit(#[trigger] head[i]) by {
            assert(head[i] == s[i]);
        }
        law_decimal_is_canonical(head);
        assert(digits_value(head) >= 1) by {
            if head.len() == 1 {
                assert(head.drop_last() =~= Seq::empty());
                assert(digits_value(head.drop_last()) == 0);
                assert(is_digit(s[0]));
            }
        }
        let v = digits_value(s);
        assert(v == 10 * digits_value(head) + low);
        assert(v / 10 == digits_value(head) && v % 10 == low);
        assert(decimal(v) =~= s);
    } else {
        assert(head =~= Seq::empty());
        assert(digits_value(head) == 0);
        assert(decimal(digits_value(s)) =~= s);
    }
}

/// The digits of a number.
pub fn to_decimal(n: u64) -> (s: Vec<u8>)
    ensures
        s@ == decimal(n as nat),
    decreases n,
{
    if n < 10 {
        let mut s: Vec<u8> = Vec::new();
        s.push(0x30 + n as u8);
        assert(s@ =~= decimal(n as nat));
        s
    } else {
        let mut s: Vec<u8> = to_decimal(n / 10);
        s.push(0x30 + (n % 10) as u8);
        s
    }
}

/// Digits denote at least what any first few of them denote.
proof fn lemma_prefix_value(s: Seq<u8>, n: int)
    requires
        0 <= n <= s.len(),
    ensures
        digits_value(s.take(n)) <= digits_value(s),
    decreases s.len(),
{
    if n < s.len() {
        assert(s.drop_last().take(n) =~= s.take(n));
        lemma_prefix_value(s.drop_last(), n);
    } else {
        assert(s.take(n) =~= s);
    }
}

/// Why a text is not taken for a number.
#[derive(Clone, Copy, Debug, PartialEq, Eq, Structural)]
pub enum NumberError {
    /// It denotes no number in range.
    Invalid,
    /// It denotes one that is written otherwise.
    Noncanonical,
}

/// The text behind a plus sign, and the text itself where there is none.
pub open spec fn unsigned_part(s: Seq<u8>) -> Seq<u8> {
    if s.len() > 1 && s[0] == 0x2b {
        s.drop_first()
    } else {
        s
    }
}

/// A text as a number up to a limit. The number has one text.
pub open spec fn number(s: Seq<u8>, limit: u64) -> Result<u64, NumberError> {
    let part = unsigned_part(s);
    if !digits(part) || digits_value(part) > limit {
        Err(NumberError::Invalid)
    } else if decimal(digits_value(part)) != s {
        Err(NumberError::Noncanonical)
    } else {
        Ok(digits_value(part) as u64)
    }
}

/// A text as a process number, which may carry a minus sign.
pub open spec fn signed_number(s: Seq<u8>) -> Result<i32, NumberError> {
    if s.len() > 1 && s[0] == 0x2d {
        let part = s.drop_first();
        let v = digits_value(part);
        if !digits(part) || v > 0x8000_0000 {
            Err(NumberError::Invalid)
        } else if v == 0 || decimal(v) != part {
            Err(NumberError::Noncanonical)
        } else {
            Ok((-(v as int)) as i32)
        }
    } else {
        match number(s, 0x7fff_ffff) {
            Ok(v) => Ok(v as i32),
            Err(e) => Err(e),
        }
    }
}

/// The value of digits from `from` on, up to a limit, and whether it is canonical.
fn read_digits(s: &[u8], from: usize, limit: u64) -> (r: Result<(u64, bool), NumberError>)
    requires
        from <= s@.len(),
    ensures
        ({
            let part = s@.subrange(from as int, s@.len() as int);
            match r {
                Ok((v, canonical)) => digits(part) && digits_value(part) == v && v <= limit
                    && canonical == (decimal(v as nat) == part),
                Err(e) => e == NumberError::Invalid && (!digits(part) || digits_value(part)
                    > limit),
            }
        }),
{
    let ghost part = s@.subrange(from as int, s@.len() as int);
    if from == s.len() {
        return Err(NumberError::Invalid);
    }
    let mut v: u64 = 0;
    let mut i: usize = from;
    assert(part.take(0) =~= Seq::empty());
    while i < s.len()
        invariant
            from <= i <= s@.len(),
            part == s@.subrange(from as int, s@.len() as int),
            v == digits_value(part.take(i - from)),
            v <= limit,
            forall|j: int| 0 <= j < i - from ==> is_digit(#[trigger] part[j]),
        decreases s@.len() - i,
    {
        let b: u8 = s[i];
        assert(part[i - from] == b);
        if b < 0x30 || b > 0x39 {
            assert(!is_digit(part[i - from]));
            return Err(NumberError::Invalid);
        }
        proof {
            assert(part.take(i - from + 1).drop_last() =~= part.take(i - from));
            assert(part.take(i - from + 1).last() == b);
            lemma_prefix_value(part, i - from + 1);
        }
        match v.checked_mul(10) {
            None => {
                return Err(NumberError::Invalid);
            },
            Some(shifted) => match shifted.checked_add((b - 0x30) as u64) {
                None => {
                    return Err(NumberError::Invalid);
                },
                Some(next) => {
                    if next > limit {
                        return Err(NumberError::Invalid);
                    }
                    v = next;
                },
            },
        }
        i += 1;
    }
    assert(part.take(i - from) =~= part);
    let canonical: bool = s[from] != 0x30 || s.len() - from == 1;
    proof {
        assert(part[0] == s@[from as int]);
        if canonical {
            law_decimal_is_canonical(part);
        } else {
            law_decimal_denotes_its_number(v as nat);
            if v == 0 {
                assert(decimal(0).len() == 1);
            }
        }
    }
    Ok((v, canonical))
}

/// Reads a number up to a limit.
pub fn parse_number(s: &[u8], limit: u64) -> (r: Result<u64, NumberError>)
    ensures
        r == number(s@, limit),
{
    let signed: bool = s.len() > 1 && s[0] == 0x2b;
    let from: usize = if signed {
        1
    } else {
        0
    };
    assert(s@.subrange(from as int, s@.len() as int) =~= unsigned_part(s@));
    match read_digits(s, from, limit) {
        Err(e) => Err(e),
        Ok((v, canonical)) => {
            proof {
                law_decimal_denotes_its_number(v as nat);
                assert(signed ==> s@[0] == 0x2b && !is_digit(s@[0]));
                if signed && decimal(v as nat) == s@ {
                    assert(is_digit(decimal(v as nat)[0]));
                }
            }
            if signed || !canonical {
                Err(NumberError::Noncanonical)
            } else {
                Ok(v)
            }
        },
    }
}

/// Reads a process number.
pub fn parse_signed(s: &[u8]) -> (r: Result<i32, NumberError>)
    ensures
        r == signed_number(s@),
{
    if s.len() > 1 && s[0] == 0x2d {
        assert(s@.subrange(1, s@.len() as int) =~= s@.drop_first());
        match read_digits(s, 1, 0x8000_0000) {
            Err(e) => Err(e),
            Ok((v, canonical)) => if v == 0 || !canonical {
                Err(NumberError::Noncanonical)
            } else {
                Ok((-(v as i64)) as i32)
            },
        }
    } else {
        match parse_number(s, 0x7fff_ffff) {
            Ok(v) => Ok(v as i32),
            Err(e) => Err(e),
        }
    }
}

} // verus!
