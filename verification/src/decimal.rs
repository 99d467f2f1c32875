//! Decimal text: parsing the size field of a remote file descriptor, and
//! rendering a 64-bit size when the manifest is serialized.

use vstd::prelude::*;

verus! {

/// `b` is an ASCII decimal digit.
pub open spec fn is_dec_digit(b: u8) -> bool {
    0x30 <= b <= 0x39
}

/// Every byte of `s` is an ASCII decimal digit.
pub open spec fn all_dec_digits(s: Seq<u8>) -> bool {
    forall|i: int| 0 <= i < s.len() ==> is_dec_digit(#[trigger] s[i])
}

/// The number denoted by the digit string `s`, most significant digit first.
pub open spec fn dec_value(s: Seq<u8>) -> nat
    decreases s.len(),
{
    if s.len() == 0 {
        0
    } else {
        dec_value(s.drop_last()) * 10 + (if is_dec_digit(s.last()) {
            (s.last() - 0x30) as nat
        } else {
            0
        })
    }
}

/// `s` is decimal text denoting a value that fits in a `u64`.
pub open spec fn parses_as_u64(s: Seq<u8>) -> bool {
    s.len() > 0 && all_dec_digits(s) && dec_value(s) <= u64::MAX
}

/// Appending digits never shrinks the value: once a prefix of the text
/// already exceeds a bound, the whole text does too.
proof fn lemma_dec_value_prefix_le(s: Seq<u8>, i: int)
    requires
        0 <= i <= s.len(),
    ensures
        dec_value(s.take(i)) <= dec_value(s),
    decreases s.len() - i,
{
    if i < s.len() {
        assert(s.take(i + 1).drop_last() =~= s.take(i));
        assert(dec_value(s.take(i)) <= dec_value(s.take(i + 1)));
        lemma_dec_value_prefix_le(s, i + 1);
    } else {
        assert(s.take(i) =~= s);
    }
}

/// Parses decimal text as a `u64`. Returns `None` exactly when the text is
/// empty, holds a non-digit byte, or denotes a value above `u64::MAX`.
pub fn parse_u64(s: &[u8]) -> (r: Option<u64>)
    ensures
        r is Some <==> parses_as_u64(s@),
        r matches Some(v) ==> v == dec_value(s@),
{
    if s.len() == 0 {
        return None;
    }
    let mut acc: u64 = 0;
    let mut i: usize = 0;
    while i < s.len()
        invariant
            0 <= i <= s@.len(),
            all_dec_digits(s@.take(i as int)),
            acc == dec_value(s@.take(i as int)),
        decreases s@.len() - i,
    {
        let b = s[i];
        if b < 0x30 || b > 0x39 {
            assert(!is_dec_digit(s@[i as int]));
            return None;
        }
        let d: u64 = (b - 0x30) as u64;
        if acc > (u64::MAX - d) / 10 {
            proof {
                assert(s@.take(i as int + 1).drop_last() =~= s@.take(i as int));
                assert(dec_value(s@.take(i as int + 1)) > u64::MAX);
                lemma_dec_value_prefix_le(s@, i as int + 1);
            }
            return None;
        }
        proof {
            assert(s@.take(i as int + 1).drop_last() =~= s@.take(i as int));
        }
        acc = acc * 10 + d;
        i = i + 1;
    }
    proof {
        assert(s@.take(s@.len() as int) =~= s@);
    }
    Some(acc)
}

/// The canonical decimal rendering of `n`: no sign, no leading zero except
/// for zero itself.
pub open spec fn dec_digits_of(n: nat) -> Seq<u8>
    decreases n,
{
    if n < 10 {
        seq![(0x30 + n) as u8]
    } else {
        dec_digits_of(n / 10) + seq![(0x30 + n % 10) as u8]
    }
}

/// Appends the decimal rendering of `n` to `out`.
pub fn push_dec_u64(out: &mut Vec<u8>, n: u64)
    ensures
        final(out)@ == old(out)@ + dec_digits_of(n as nat),
    decreases n,
{
    if n < 10 {
        out.push((0x30 + n) as u8);
    } else {
        assert(n / 10 < n) by (nonlinear_arith)
            requires n >= 10,
        ;
        assert((n as nat) / 10 == (n / 10) as nat);
        push_dec_u64(out, n / 10);
        out.push((0x30 + n % 10) as u8);
        assert(final(out)@ =~= old(out)@ + dec_digits_of(n as nat));
    }
}


/// `s` is the integer part of a JSON number: one or more digits, with
/// no leading zero unless it is the single digit zero.
pub open spec fn int_digits_ok(s: Seq<u8>) -> bool {
    s.len() > 0 && all_dec_digits(s) && (s.len() == 1 || s[0] != 0x30)
}

/// `s` splits at position `d` into a dotted JSON number: an integer
/// part, the dot, and a nonempty run of fraction digits.
pub open spec fn version_split_ok(s: Seq<u8>, d: int) -> bool {
    &&& 0 <= d < s.len()
    &&& s[d] == 0x2E
    &&& int_digits_ok(s.take(d))
    &&& s.len() - d - 1 > 0
    &&& all_dec_digits(s.skip(d + 1))
}

/// `s` is non-negative JSON number text: an integer, or an integer, a
/// dot and a fraction.
pub open spec fn version_text_ok(s: Seq<u8>) -> bool {
    int_digits_ok(s) || exists|d: int| #[trigger] version_split_ok(s, d)
}

/// The position of the first dot in `s`, if any.
fn find_dot(s: &[u8]) -> (r: Option<usize>)
    ensures
        r matches Some(d) ==> (d < s@.len() && s@[d as int] == 0x2E && forall|j: int|
            0 <= j < d ==> s@[j] != 0x2E),
        r is None ==> forall|j: int| 0 <= j < s@.len() ==> s@[j] != 0x2E,
{
    let mut i: usize = 0;
    while i < s.len()
        invariant
            0 <= i <= s@.len(),
            forall|j: int| 0 <= j < i ==> s@[j] != 0x2E,
        decreases s@.len() - i,
    {
        if s[i] == 0x2E {
            return Some(i);
        }
        i = i + 1;
    }
    None
}

/// Whether `s[from..to]` is a digit run without a forbidden leading zero.
fn check_int_digits(s: &[u8], from: usize, to: usize) -> (r: bool)
    requires
        from <= to <= s@.len(),
    ensures
        r == int_digits_ok(s@.subrange(from as int, to as int)),
{
    if from == to {
        return false;
    }
    if to - from > 1 && s[from] == 0x30 {
        return false;
    }
    let mut i: usize = from;
    while i < to
        invariant
            from <= i <= to <= s@.len(),
            forall|j: int| from <= j < i ==> is_dec_digit(#[trigger] s@[j]),
        decreases to - i,
    {
        if s[i] < 0x30 || s[i] > 0x39 {
            proof {
                assert(!is_dec_digit(s@.subrange(from as int, to as int)[i - from]));
            }
            return false;
        }
        i = i + 1;
    }
    proof {
        assert(forall|j: int|
            0 <= j < to - from ==> is_dec_digit(#[trigger] s@.subrange(from as int, to as int)[j]));
    }
    true
}

/// Whether `s[from..to]` is a nonempty digit run.
fn check_digits(s: &[u8], from: usize, to: usize) -> (r: bool)
    requires
        from <= to <= s@.len(),
    ensures
        r == (to - from > 0 && all_dec_digits(s@.subrange(from as int, to as int))),
{
    if from == to {
        return false;
    }
    let mut i: usize = from;
    while i < to
        invariant
            from <= i <= to <= s@.len(),
            forall|j: int| from <= j < i ==> is_dec_digit(#[trigger] s@[j]),
        decreases to - i,
    {
        if s[i] < 0x30 || s[i] > 0x39 {
            proof {
                assert(!is_dec_digit(s@.subrange(from as int, to as int)[i - from]));
            }
            return false;
        }
        i = i + 1;
    }
    proof {
        assert(forall|j: int|
            0 <= j < to - from ==> is_dec_digit(#[trigger] s@.subrange(from as int, to as int)[j]));
    }
    true
}

/// Decides whether `s` is non-negative JSON number text.
pub fn check_version_text(s: &[u8]) -> (r: bool)
    ensures
        r == version_text_ok(s@),
{
    let n = s.len();
    match find_dot(s) {
        None => {
            let ok = check_int_digits(s, 0, n);
            proof {
                assert(s@.subrange(0, n as int) =~= s@);
                assert(forall|d: int| !version_split_ok(s@, d));
            }
            ok
        },
        Some(d) => {
            let int_ok = check_int_digits(s, 0, d);
            let frac_ok = check_digits(s, d + 1, n);
            let ok = int_ok && frac_ok;
            proof {
                assert(s@.subrange(0, d as int) =~= s@.take(d as int));
                assert(s@.subrange(d as int + 1, n as int) =~= s@.skip(d as int + 1));
                assert(!all_dec_digits(s@));
                if ok {
                    assert(version_split_ok(s@, d as int));
                } else {
                    assert forall|d2: int| !version_split_ok(s@, d2) by {
                        if 0 <= d2 < s@.len() && s@[d2] == 0x2E {
                            if d2 < d {
                                assert(false);
                            } else if d2 > d {
                                assert(s@.take(d2)[d as int] == 0x2E);
                                assert(!all_dec_digits(s@.take(d2)));
                            }
                        }
                    }
                }
            }
            ok
        },
    }
}

} // verus!
