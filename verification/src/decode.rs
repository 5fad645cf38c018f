//! Payload decoding: pure functions from a matched slice to its decoded
//! value. Integer decoding reports overflow instead of panicking; quoted
//! strings lose their trailing delimiter and every backslash byte.

use vstd::prelude::*;
use crate::rules::{is_digit, is_hex_digit, lemma_digit_run};

verus! {

/// Numeric value of a decimal digit byte.
pub open spec fn digit_val(b: u8) -> int {
    b - 48
}

/// Numeric value of a hexadecimal digit byte.
pub open spec fn hex_digit_val(b: u8) -> int {
    if is_digit(b) {
        b - 48
    } else if 97 <= b && b <= 102 {
        b - 87
    } else {
        b - 55
    }
}

/// The number written by a sequence of decimal digit bytes.
pub open spec fn dec_val(s: Seq<u8>) -> int
    decreases s.len(),
{
    if s.len() == 0 {
        0
    } else {
        dec_val(s.drop_last()) * 10 + digit_val(s.last())
    }
}

/// The number written by a sequence of hexadecimal digit bytes.
pub open spec fn hex_val(s: Seq<u8>) -> int
    decreases s.len(),
{
    if s.len() == 0 {
        0
    } else {
        hex_val(s.drop_last()) * 16 + hex_digit_val(s.last())
    }
}

/// A sequence of decimal digits writes a non-negative number, and every
/// prefix writes at most as much as the whole.
pub proof fn lemma_dec_val_prefix(s: Seq<u8>, k: int)
    requires
        0 <= k <= s.len(),
        forall|j: int| 0 <= j < s.len() ==> is_digit(s[j]),
    ensures
        0 <= dec_val(s.subrange(0, k)) <= dec_val(s),
    decreases s.len() - k,
{
    lemma_dec_val_nonneg(s.subrange(0, k));
    if k == s.len() {
        assert(s.subrange(0, k) =~= s);
    } else {
        lemma_dec_val_prefix(s, k + 1);
        let t = s.subrange(0, k + 1);
        assert(t.drop_last() =~= s.subrange(0, k));
        lemma_dec_val_nonneg(s.subrange(0, k));
    }
}

/// Decimal digits never write a negative number.
pub proof fn lemma_dec_val_nonneg(s: Seq<u8>)
    requires
        forall|j: int| 0 <= j < s.len() ==> is_digit(s[j]),
    ensures
        0 <= dec_val(s),
    decreases s.len(),
{
    if s.len() > 0 {
        lemma_dec_val_nonneg(s.drop_last());
    }
}

/// Hexadecimal digits never write a negative number.
pub proof fn lemma_hex_val_nonneg(s: Seq<u8>)
    requires
        forall|j: int| 0 <= j < s.len() ==> is_hex_digit(s[j]),
    ensures
        0 <= hex_val(s),
    decreases s.len(),
{
    if s.len() > 0 {
        lemma_hex_val_nonneg(s.drop_last());
    }
}

/// Every prefix of a hexadecimal digit sequence writes at most as much
/// as the whole.
pub proof fn lemma_hex_val_prefix(s: Seq<u8>, k: int)
    requires
        0 <= k <= s.len(),
        forall|j: int| 0 <= j < s.len() ==> is_hex_digit(s[j]),
    ensures
        0 <= hex_val(s.subrange(0, k)) <= hex_val(s),
    decreases s.len() - k,
{
    lemma_hex_val_nonneg(s.subrange(0, k));
    if k == s.len() {
        assert(s.subrange(0, k) =~= s);
    } else {
        lemma_hex_val_prefix(s, k + 1);
        let t = s.subrange(0, k + 1);
        assert(t.drop_last() =~= s.subrange(0, k));
        lemma_hex_val_nonneg(s.subrange(0, k));
    }
}

/// Parses the decimal digits in `s[start .. end]` into a machine word,
/// or reports that the written number is too large for one.
pub fn parse_dec(s: &[u8], start: usize, end: usize) -> (r: Option<u64>)
    requires
        start <= end <= s@.len(),
        forall|j: int| start <= j < end ==> is_digit(s@[j]),
    ensures
        match r {
            Some(v) => v as int == dec_val(s@.subrange(start as int, end as int)),
            None => dec_val(s@.subrange(start as int, end as int)) > u64::MAX,
        },
{
    let ghost whole = s@.subrange(start as int, end as int);
    let mut acc: u64 = 0;
    let mut j = start;
    proof {
        assert(s@.subrange(start as int, start as int) =~= whole.subrange(0, 0));
    }
    while j < end
        invariant
            start <= j <= end <= s@.len(),
            forall|t: int| start <= t < end ==> is_digit(s@[t]),
            whole == s@.subrange(start as int, end as int),
            acc as int == dec_val(s@.subrange(start as int, j as int)),
        decreases end - j,
    {
        let d = s[j] - 48;
        let wide: u128 = acc as u128 * 10 + d as u128;
        proof {
            let t = s@.subrange(start as int, j as int + 1);
            assert(t.drop_last() =~= s@.subrange(start as int, j as int));
            assert(t.last() == s@[j as int]);
        }
        if wide > u64::MAX as u128 {
            proof {
                assert(whole.subrange(0, j - start + 1) =~= s@.subrange(
                    start as int,
                    j as int + 1,
                ));
                lemma_dec_val_prefix(whole, j - start + 1);
            }
            return None;
        }
        acc = wide as u64;
        j = j + 1;
    }
    proof {
        assert(s@.subrange(start as int, end as int) =~= whole);
    }
    Some(acc)
}

/// Parses the hexadecimal digits in `s[start .. end]` into a machine
/// word, or reports that the written number is too large for one.
pub fn parse_hex(s: &[u8], start: usize, end: usize) -> (r: Option<u64>)
    requires
        start <= end <= s@.len(),
        forall|j: int| start <= j < end ==> is_hex_digit(s@[j]),
    ensures
        match r {
            Some(v) => v as int == hex_val(s@.subrange(start as int, end as int)),
            None => hex_val(s@.subrange(start as int, end as int)) > u64::MAX,
        },
{
    let ghost whole = s@.subrange(start as int, end as int);
    let mut acc: u64 = 0;
    let mut j = start;
    proof {
        assert(s@.subrange(start as int, start as int) =~= whole.subrange(0, 0));
    }
    while j < end
        invariant
            start <= j <= end <= s@.len(),
            forall|t: int| start <= t < end ==> is_hex_digit(s@[t]),
            whole == s@.subrange(start as int, end as int),
            acc as int == hex_val(s@.subrange(start as int, j as int)),
        decreases end - j,
    {
        let b = s[j];
        let d: u8 = if b <= 57 {
            b - 48
        } else if b >= 97 {
            b - 87
        } else {
            b - 55
        };
        let wide: u128 = acc as u128 * 16 + d as u128;
        proof {
            let t = s@.subrange(start as int, j as int + 1);
            assert(t.drop_last() =~= s@.subrange(start as int, j as int));
            assert(t.last() == s@[j as int]);
        }
        if wide > u64::MAX as u128 {
            proof {
                assert(whole.subrange(0, j - start + 1) =~= s@.subrange(
                    start as int,
                    j as int + 1,
                ));
                lemma_hex_val_prefix(whole, j - start + 1);
            }
            return None;
        }
        acc = wide as u64;
        j = j + 1;
    }
    proof {
        assert(s@.subrange(start as int, end as int) =~= whole);
    }
    Some(acc)
}

/// The value of an integer literal written at `s[start .. end]`: the
/// digits after a `0x` prefix read in radix 16, a bare digit run read in
/// radix 10.
pub open spec fn int_value(s: Seq<u8>, start: int, end: int) -> int {
    if end - start > 2 && s[start] == 48 && s[start + 1] == 120 {
        hex_val(s.subrange(start + 2, end))
    } else {
        dec_val(s.subrange(start, end))
    }
}

/// Decodes the integer literal matched at `s[start .. end]`, stripping a
/// `0x` prefix and reading the remaining digits in the matching radix.
pub fn decode_int(s: &[u8], start: usize, end: usize) -> (r: Option<u64>)
    requires
        start < end <= s@.len(),
        crate::rules::int_len(s@, start as int) == end - start,
    ensures
        match r {
            Some(v) => v as int == int_value(s@, start as int, end as int),
            None => int_value(s@, start as int, end as int) > u64::MAX,
        },
{
    if end - start > 2 && s[start] == 48 && s[start + 1] == 120 {
        proof {
            lemma_digit_run(s@, start as int);
            lemma_digit_run(s@, start as int + 1);
            crate::rules::lemma_hex_run(s@, start as int + 2);
        }
        parse_hex(s, start + 2, end)
    } else {
        proof {
            lemma_digit_run(s@, start as int);
            if start + 2 < s@.len() && s@[start as int] == 48 && s@[start as int + 1] == 120
                && is_hex_digit(s@[start as int + 2]) {
                crate::rules::lemma_hex_run(s@, start as int + 2);
                crate::rules::lemma_hex_run(s@, start as int + 3);
            }
        }
        parse_dec(s, start, end)
    }
}

/// The text of a quoted literal after decoding: every backslash byte is
/// removed, with no further interpretation of what it escaped.
pub open spec fn strip_bs(s: Seq<u8>) -> Seq<u8>
    decreases s.len(),
{
    if s.len() == 0 {
        Seq::empty()
    } else if s.last() == 92 {
        strip_bs(s.drop_last())
    } else {
        strip_bs(s.drop_last()).push(s.last())
    }
}

/// Copies `s[start .. end]` while dropping every backslash byte.
pub fn strip_backslashes(s: &[u8], start: usize, end: usize) -> (out: Vec<u8>)
    requires
        start <= end <= s@.len(),
    ensures
        out@ == strip_bs(s@.subrange(start as int, end as int)),
{
    let mut out: Vec<u8> = Vec::new();
    let mut j = start;
    proof {
        assert(s@.subrange(start as int, start as int) =~= Seq::<u8>::empty());
    }
    while j < end
        invariant
            start <= j <= end <= s@.len(),
            out@ == strip_bs(s@.subrange(start as int, j as int)),
        decreases end - j,
    {
        proof {
            let t = s@.subrange(start as int, j as int + 1);
            assert(t.drop_last() =~= s@.subrange(start as int, j as int));
            assert(t.last() == s@[j as int]);
        }
        if s[j] != 92 {
            out.push(s[j]);
        }
        j = j + 1;
    }
    out
}

/// Copies `s[start .. end]` unchanged.
pub fn copy_range(s: &[u8], start: usize, end: usize) -> (out: Vec<u8>)
    requires
        start <= end <= s@.len(),
    ensures
        out@ == s@.subrange(start as int, end as int),
{
    let part = vstd::slice::slice_subrange(s, start, end);
    vstd::slice::slice_to_vec(part)
}

/// The decimal digits that write the number `n`.
pub open spec fn dec_repr(n: int) -> Seq<u8>
    decreases n,
{
    if n < 10 {
        seq![(48 + n) as u8]
    } else {
        dec_repr(n / 10).push((48 + n % 10) as u8)
    }
}

/// Appends the decimal digits of `n` to `out`.
pub fn push_dec(out: &mut Vec<u8>, n: u64)
    ensures
        final(out)@ == old(out)@ + dec_repr(n as int),
    decreases n,
{
    if n < 10 {
        out.push(48 + n as u8);
        proof {
            assert(out@ =~= old(out)@ + dec_repr(n as int));
        }
    } else {
        push_dec(out, n / 10);
        out.push(48 + (n % 10) as u8);
        proof {
            assert(out@ =~= old(out)@ + dec_repr(n as int));
        }
    }
}

} // verus!
