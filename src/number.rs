use vstd::prelude::*;

verus! {

pub open spec fn is_digit(b: u8) -> bool {
    48 <= b <= 57
}

pub open spec fn all_digits(s: Seq<u8>) -> bool {
    forall|i: int| 0 <= i < s.len() ==> is_digit(#[trigger] s[i])
}

/// The number that a string of decimal digits spells.
pub open spec fn digits_value(s: Seq<u8>) -> nat
    decreases s.len(),
{
    if s.len() == 0 {
        0
    } else {
        digits_value(s.drop_last()) * 10 + (s.last() - 48) as nat
    }
}

/// The digits of a number written with an optional leading `+`.
pub open spec fn unsigned_digits(s: Seq<u8>) -> Seq<u8> {
    if s.len() > 0 && s[0] == 43 {
        s.subrange(1, s.len() as int)
    } else {
        s
    }
}

/// The value of a decimal `u64` written as `[+]digits`, or `None` where the
/// text is no such number or the value does not fit in 64 bits.
pub open spec fn u64_of(s: Seq<u8>) -> Option<nat> {
    let ds = unsigned_digits(s);
    if ds.len() > 0 && all_digits(ds) && digits_value(ds) <= u64::MAX {
        Some(digits_value(ds))
    } else {
        None
    }
}

proof fn lemma_digits_grow(s: Seq<u8>, i: int)
    requires
        all_digits(s),
        0 <= i <= s.len(),
    ensures
        digits_value(s.subrange(0, i)) <= digits_value(s),
    decreases s.len() - i,
{
    if i < s.len() {
        lemma_digits_grow(s, i + 1);
        assert(s.subrange(0, i + 1).drop_last() =~= s.subrange(0, i));
    } else {
        assert(s.subrange(0, i) =~= s);
    }
}

/// Reads a decimal `u64` written as `[+]digits`.
pub fn parse_u64(s: &[u8]) -> (r: Option<u64>)
    ensures
        match r {
            Some(n) => u64_of(s@) == Some(n as nat),
            None => u64_of(s@) is None,
        },
{
    let start: usize = if s.len() > 0 && s[0] == 43u8 {
        1
    } else {
        0
    };
    let ghost ds = unsigned_digits(s@);
    assert(ds =~= s@.subrange(start as int, s@.len() as int));
    if start >= s.len() {
        return None;
    }
    let mut acc: u64 = 0;
    let mut i: usize = start;
    while i < s.len()
        invariant
            start <= i <= s@.len(),
            ds =~= s@.subrange(start as int, s@.len() as int),
            ds == unsigned_digits(s@),
            all_digits(ds.subrange(0, i - start)),
            acc as nat == digits_value(ds.subrange(0, i - start)),
        decreases s@.len() - i,
    {
        let b = s[i];
        assert(ds.subrange(0, i + 1 - start).drop_last() =~= ds.subrange(0, i - start));
        if b < 48u8 || b > 57u8 {
            assert(!all_digits(ds)) by {
                assert(ds[i - start] == b);
            }
            return None;
        }
        let d = (b - 48u8) as u64;
        if acc > (u64::MAX - d) / 10 {
            proof {
                assert(all_digits(ds.subrange(0, i + 1 - start)));
                if all_digits(ds) {
                    lemma_digits_grow(ds, i + 1 - start);
                }
            }
            return None;
        }
        acc = acc * 10 + d;
        assert(all_digits(ds.subrange(0, i + 1 - start)));
        i += 1;
    }
    assert(ds.subrange(0, i - start) =~= ds);
    Some(acc)
}

} // verus!
