//! Reading unsigned numbers written in decimal.
use vstd::prelude::*;

verus! {

pub open spec fn is_digit(c: char) -> bool {
    '0' <= c <= '9'
}

/// The number that a string of decimal digits writes.
pub open spec fn digits_value(ds: Seq<char>) -> nat
    decreases ds.len(),
{
    if ds.len() == 0 {
        0
    } else {
        digits_value(ds.drop_last()) * 10 + (ds.last() as nat - '0' as nat) as nat
    }
}

/// The digits of an unsigned number: the text without one leading `+`.
pub open spec fn unsigned_digits(s: Seq<char>) -> Seq<char> {
    if s.len() > 0 && s[0] == '+' {
        s.drop_first()
    } else {
        s
    }
}

/// The `u64` that a text writes in decimal, with an optional leading `+`,
/// as Rust's `u64::from_str` reads it.
pub open spec fn parse_decimal(s: Seq<char>) -> Option<u64> {
    let ds = unsigned_digits(s);
    if ds.len() > 0 && (forall|i: int| 0 <= i < ds.len() ==> is_digit(#[trigger] ds[i]))
        && digits_value(ds) <= u64::MAX {
        Some(digits_value(ds) as u64)
    } else {
        None
    }
}

proof fn lemma_digits_grow(ds: Seq<char>, k: int)
    requires
        0 <= k <= ds.len(),
        forall|i: int| 0 <= i < ds.len() ==> is_digit(#[trigger] ds[i]),
    ensures
        digits_value(ds.subrange(0, k)) <= digits_value(ds),
    decreases ds.len(),
{
    if k < ds.len() {
        let front = ds.drop_last();
        assert(front.subrange(0, k) =~= ds.subrange(0, k));
        lemma_digits_grow(front, k);
    } else {
        assert(ds.subrange(0, k) =~= ds);
    }
}

/// Reads a `u64` written in decimal.
pub fn parse_u64(s: &str) -> (r: Option<u64>)
    ensures
        r == parse_decimal(s@),
{
    let len = s.unicode_len();
    let mut i: usize = 0;
    if len > 0 && s.get_char(0) == '+' {
        i = 1;
    }
    let start = i;
    let ghost ds = unsigned_digits(s@);
    assert(ds =~= s@.subrange(start as int, len as int));
    if start == len {
        return None;
    }
    let mut value: u64 = 0;
    while i < len
        invariant
            start <= i <= len,
            len == s@.len(),
            start < len,
            ds == s@.subrange(start as int, len as int),
            ds == unsigned_digits(s@),
            forall|j: int| 0 <= j < i - start ==> is_digit(#[trigger] ds[j]),
            value == digits_value(ds.subrange(0, i - start)),
        decreases len - i,
    {
        let c = s.get_char(i);
        assert(c == ds[i - start]);
        if !('0' <= c && c <= '9') {
            assert(!is_digit(ds[i - start]));
            return None;
        }
        let d = (c as u32 - '0' as u32) as u64;
        let ghost prefix = ds.subrange(0, i - start + 1);
        assert(prefix.drop_last() =~= ds.subrange(0, i - start));
        assert(prefix.last() == c);
        assert(digits_value(prefix) == value * 10 + d);
        let times = value.checked_mul(10);
        match times {
            None => {
                proof {
                    lemma_overflow_is_none(ds, i - start + 1);
                }
                return None;
            },
            Some(t) => match t.checked_add(d) {
                None => {
                    proof {
                        lemma_overflow_is_none(ds, i - start + 1);
                    }
                    return None;
                },
                Some(v) => {
                    value = v;
                },
            },
        }
        i = i + 1;
    }
    assert(ds.subrange(0, len - start) =~= ds);
    Some(value)
}

/// Where a prefix of digits already writes a number above `u64::MAX`, the
/// text writes no `u64`.
proof fn lemma_overflow_is_none(ds: Seq<char>, k: int)
    requires
        0 < k <= ds.len(),
        forall|j: int| 0 <= j < k - 1 ==> is_digit(#[trigger] ds[j]),
        is_digit(ds[k - 1]),
        digits_value(ds.subrange(0, k)) > u64::MAX,
    ensures
        !(ds.len() > 0 && (forall|i: int| 0 <= i < ds.len() ==> is_digit(#[trigger] ds[i]))
            && digits_value(ds) <= u64::MAX),
{
    if forall|i: int| 0 <= i < ds.len() ==> is_digit(#[trigger] ds[i]) {
        lemma_digits_grow(ds, k);
    }
}

} // verus!
