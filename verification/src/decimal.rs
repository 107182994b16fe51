//! Decimal integers as `str::parse` reads them: an optional sign followed by
//! one or more ASCII digits, nothing else, within the range of the type.
use vstd::prelude::*;

verus! {

/// Whether `b` is an ASCII digit.
pub open spec fn is_digit(b: u8) -> bool {
    0x30 <= b <= 0x39
}

/// Whether every byte of `s` is an ASCII digit.
pub open spec fn all_digits(s: Seq<u8>) -> bool {
    forall|i: int| 0 <= i < s.len() ==> is_digit(#[trigger] s[i])
}

/// Value of a string of decimal digits (0 for the empty string).
pub open spec fn digits_value(s: Seq<u8>) -> int
    decreases s.len(),
{
    if s.len() == 0 {
        0
    } else {
        10 * digits_value(s.drop_last()) + (s.last() - 0x30)
    }
}

/// Whether `s` is one or more digits whose value is at most `limit`.
pub open spec fn digits_within(s: Seq<u8>, limit: int) -> bool {
    s.len() > 0 && all_digits(s) && digits_value(s) <= limit
}

/// What `str::parse::<i64>` gives for the bytes `s`.
pub open spec fn spec_parse_i64(s: Seq<u8>) -> Option<int> {
    if s.len() > 0 && s[0] == 0x2D {
        if digits_within(s.drop_first(), 0x8000_0000_0000_0000) {
            Some(-digits_value(s.drop_first()))
        } else {
            None
        }
    } else {
        let d = if s.len() > 0 && s[0] == 0x2B { s.drop_first() } else { s };
        if digits_within(d, i64::MAX as int) {
            Some(digits_value(d))
        } else {
            None
        }
    }
}

/// What `str::parse::<usize>` gives for the bytes `s`.
pub open spec fn spec_parse_usize(s: Seq<u8>) -> Option<int> {
    let d = if s.len() > 0 && s[0] == 0x2B { s.drop_first() } else { s };
    if digits_within(d, usize::MAX as int) {
        Some(digits_value(d))
    } else {
        None
    }
}

proof fn lemma_digits_value_nonneg(s: Seq<u8>)
    requires
        all_digits(s),
    ensures
        digits_value(s) >= 0,
    decreases s.len(),
{
    if s.len() > 0 {
        assert(is_digit(s[s.len() - 1]));
        assert(all_digits(s.drop_last())) by {
            assert forall|i: int| 0 <= i < s.drop_last().len() implies is_digit(
                #[trigger] s.drop_last()[i],
            ) by {
                assert(s.drop_last()[i] == s[i]);
            }
        }
        lemma_digits_value_nonneg(s.drop_last());
    }
}

/// A digit string is worth at least as much as any of its prefixes.
proof fn lemma_prefix_value_le(s: Seq<u8>, k: int)
    requires
        all_digits(s),
        0 <= k <= s.len(),
    ensures
        digits_value(s.subrange(0, k)) <= digits_value(s),
    decreases s.len(),
{
    if k < s.len() {
        let p = s.drop_last();
        assert(all_digits(p)) by {
            assert forall|i: int| 0 <= i < p.len() implies is_digit(#[trigger] p[i]) by {
                assert(p[i] == s[i]);
            }
        }
        lemma_prefix_value_le(p, k);
        assert(p.subrange(0, k) =~= s.subrange(0, k));
        lemma_digits_value_nonneg(p);
        assert(is_digit(s[s.len() - 1]));
    } else {
        assert(s.subrange(0, k) =~= s);
    }
}

/// Value of the digits `s[start..]` if they are one or more digits worth at most `limit`.
fn parse_digits(s: &[u8], start: usize, limit: u64) -> (r: Option<u64>)
    requires
        start <= s@.len(),
    ensures
        r matches Some(v) ==> v == digits_value(s@.subrange(start as int, s@.len() as int)),
        r is Some <==> digits_within(s@.subrange(start as int, s@.len() as int), limit as int),
{
    if start == s.len() {
        return None;
    }
    let ghost full = s@.subrange(start as int, s@.len() as int);
    let mut v: u64 = 0;
    let mut i: usize = start;
    while i < s.len()
        invariant
            start <= i <= s@.len(),
            start < s@.len(),
            full == s@.subrange(start as int, s@.len() as int),
            all_digits(s@.subrange(start as int, i as int)),
            v == digits_value(s@.subrange(start as int, i as int)),
            v <= limit,
        decreases s@.len() - i,
    {
        let b = s[i];
        let ghost pre = s@.subrange(start as int, i as int);
        let ghost next = s@.subrange(start as int, i + 1);
        assert(next.drop_last() =~= pre);
        assert(next.last() == b);
        if b < 0x30 || b > 0x39 {
            assert(full[i - start] == b);
            assert(!all_digits(full));
            return None;
        }
        let d: u64 = (b - 0x30) as u64;
        assert(all_digits(next)) by {
            assert forall|j: int| 0 <= j < next.len() implies is_digit(#[trigger] next[j]) by {
                if j < pre.len() {
                    assert(next[j] == pre[j]);
                }
            }
        }
        if d > limit || v > (limit - d) / 10 {
            assert(v * 10 + d > limit) by (nonlinear_arith)
                requires
                    d > limit || v > (limit - d) / 10,
                    v >= 0,
            {
                if d <= limit {
                    assert((limit - d) / 10 * 10 + (limit - d) % 10 == limit - d);
                }
            }
            proof {
                if all_digits(full) {
                    assert(full.subrange(0, (i + 1 - start) as int) =~= next);
                    lemma_prefix_value_le(full, (i + 1 - start) as int);
                }
            }
            return None;
        }
        assert(v * 10 + d <= limit) by (nonlinear_arith)
            requires
                v <= (limit - d) / 10,
                d <= 9,
                d <= limit,
        ;
        v = v * 10 + d;
        i = i + 1;
    }
    assert(full =~= s@.subrange(start as int, i as int));
    Some(v)
}

/// Parses a signed decimal integer as `str::parse::<i64>` does.
pub fn parse_i64(s: &[u8]) -> (r: Option<i64>)
    ensures
        r matches Some(v) ==> spec_parse_i64(s@) == Some(v as int),
        r is None ==> spec_parse_i64(s@) is None,
{
    if s.len() == 0 {
        assert(!digits_within(s@, i64::MAX as int));
        return None;
    }
    if s[0] == 0x2D {
        assert(s@.subrange(1, s@.len() as int) =~= s@.drop_first());
        match parse_digits(s, 1, 0x8000_0000_0000_0000u64) {
            None => None,
            Some(m) => {
                if m == 0x8000_0000_0000_0000u64 {
                    Some(i64::MIN)
                } else {
                    Some(-(m as i64))
                }
            },
        }
    } else {
        let start: usize = if s[0] == 0x2B { 1 } else { 0 };
        assert(s@.subrange(1, s@.len() as int) =~= s@.drop_first());
        assert(s@.subrange(0, s@.len() as int) =~= s@);
        match parse_digits(s, start, i64::MAX as u64) {
            None => None,
            Some(m) => Some(m as i64),
        }
    }
}

/// Parses an unsigned decimal integer as `str::parse::<usize>` does.
pub fn parse_usize(s: &[u8]) -> (r: Option<usize>)
    ensures
        r matches Some(v) ==> spec_parse_usize(s@) == Some(v as int),
        r is None ==> spec_parse_usize(s@) is None,
{
    let start: usize = if s.len() > 0 && s[0] == 0x2B { 1 } else { 0 };
    assert(s@.subrange(1, s@.len() as int) =~= s@.drop_first());
    assert(s@.subrange(0, s@.len() as int) =~= s@);
    match parse_digits(s, start, usize::MAX as u64) {
        None => None,
        Some(m) => Some(m as usize),
    }
}

} // verus!
