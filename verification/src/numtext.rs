//! Parsing of the numeric leaf texts of a track file.
//!
//! Coordinates and elevations are plain decimal numerals; the library holds
//! them in fixed-point nano units (a value of `1` means `10^-9` of the unit),
//! so `"44.4705880"` becomes `44_470_588_000`. Heart rate and cadence are
//! unsigned integers.

use vstd::prelude::*;

verus! {

/// One unit, in nano units.
pub const NANO: i64 = 1_000_000_000;

pub open spec fn is_digit(b: u8) -> bool {
    48 <= b <= 57
}

pub open spec fn all_digits(s: Seq<u8>) -> bool {
    forall|i: int| 0 <= i < s.len() ==> is_digit(#[trigger] s[i])
}

/// Value of a digit string read most-significant first.
pub open spec fn digits_val(s: Seq<u8>) -> int
    decreases s.len(),
{
    if s.len() == 0 {
        0
    } else {
        digits_val(s.drop_last()) * 10 + (s.last() - 48)
    }
}

pub open spec fn pow10(n: nat) -> int
    decreases n,
{
    if n == 0 {
        1
    } else {
        10 * pow10((n - 1) as nat)
    }
}

pub proof fn lemma_digits_val_nonneg(s: Seq<u8>)
    requires
        all_digits(s),
    ensures
        0 <= digits_val(s),
    decreases s.len(),
{
    if s.len() > 0 {
        assert(all_digits(s.drop_last()));
        lemma_digits_val_nonneg(s.drop_last());
    }
}

/// Appending one digit multiplies the value by ten and adds the digit.
pub proof fn lemma_digits_val_step(s: Seq<u8>, i: int)
    requires
        0 <= i < s.len(),
    ensures
        digits_val(s.take(i + 1)) == digits_val(s.take(i)) * 10 + (s[i] - 48),
{
    assert(s.take(i + 1).drop_last() =~= s.take(i));
    assert(s.take(i + 1).last() == s[i]);
}

/// The unsigned integer denoted by `s`, exactly as the standard library's
/// `u32` parsing accepts it: an optional leading `+`, then one or more
/// decimal digits, rejected when the value exceeds `u32::MAX`.
pub open spec fn spec_parse_u32(s: Seq<u8>) -> Option<u32> {
    let t = if s.len() > 0 && s[0] == 43 {
        s.drop_first()
    } else {
        s
    };
    if t.len() >= 1 && all_digits(t) && digits_val(t) <= u32::MAX {
        Some(digits_val(t) as u32)
    } else {
        None
    }
}

/// Parse an unsigned decimal integer, as `str::parse::<u32>` would.
#[verifier::loop_isolation(false)]
pub fn parse_u32(s: &[u8]) -> (r: Option<u32>)
    ensures
        r == spec_parse_u32(s@),
{
    let ghost t: Seq<u8> = if s@.len() > 0 && s@[0] == 43 {
        s@.drop_first()
    } else {
        s@
    };
    let start: usize = if s.len() > 0 && s[0] == 43 {
        1
    } else {
        0
    };
    proof {
        assert(t =~= s@.skip(start as int));
    }
    if s.len() == start {
        return None;
    }
    let mut acc: u64 = 0;
    let mut over: bool = false;
    let mut i: usize = start;
    while i < s.len()
        invariant
            start <= i <= s@.len(),
            t == s@.skip(start as int),
            all_digits(t.take(i - start)),
            !over ==> acc == digits_val(t.take(i - start)) && acc <= u32::MAX,
            over ==> digits_val(t.take(i - start)) > u32::MAX,
            over ==> acc <= u32::MAX as u64 * 10 + 9,
        decreases s@.len() - i,
    {
        let b = s[i];
        if b < 48 || b > 57 {
            proof {
                assert(t[i - start] == s@[i as int]);
                assert(!is_digit(t[i - start]));
            }
            return None;
        }
        proof {
            assert(t[i - start] == s@[i as int]);
            lemma_digits_val_step(t, i - start);
            assert(t.take(i - start + 1).drop_last() =~= t.take(i - start));
        }
        if !over {
            acc = acc * 10 + ((b - 48) as u64);
            if acc > u32::MAX as u64 {
                over = true;
            }
        } else {
            proof {
                lemma_digits_val_nonneg(t.take(i - start));
            }
        }
        i = i + 1;
    }
    proof {
        assert(t.take(i - start) =~= t);
    }
    if over {
        None
    } else {
        Some(acc as u32)
    }
}

/// Nano-unit value of a fraction part: the first nine digits, padded with
/// zeros on the right when fewer are given.
pub open spec fn frac_nano(f: Seq<u8>) -> int {
    if f.len() >= 9 {
        digits_val(f.take(9))
    } else {
        digits_val(f) * pow10((9 - f.len()) as nat)
    }
}

/// The fixed-point value of a signed decimal numeral split at its point.
/// The whole part is capped at nine digits so that every accepted numeral
/// fits the nano-unit range; fraction digits beyond the ninth are dropped.
pub open spec fn dec_parts_nano(neg: bool, ip: Seq<u8>, fp: Seq<u8>) -> Option<i64> {
    if ip.len() + fp.len() >= 1 && ip.len() <= 9 && all_digits(ip) && all_digits(fp) {
        let v = digits_val(ip) * (NANO as int) + frac_nano(fp);
        Some((if neg { -v } else { v }) as i64)
    } else {
        None
    }
}

/// The nano-unit value denoted by a decimal numeral: an optional sign,
/// a digit string, and at most one point somewhere in it.
pub open spec fn spec_parse_decimal_nano(s: Seq<u8>) -> Option<i64> {
    let neg = s.len() > 0 && s[0] == 45;
    let t = if s.len() > 0 && (s[0] == 45 || s[0] == 43) {
        s.drop_first()
    } else {
        s
    };
    match t.index_of_first(46u8) {
        Some(d) => dec_parts_nano(neg, t.take(d), t.skip(d + 1)),
        None => dec_parts_nano(neg, t, Seq::empty()),
    }
}

fn pow10_exec(n: usize) -> (r: i64)
    requires
        n <= 9,
    ensures
        r == pow10(n as nat),
{
    let table: [i64; 10] = [
        1,
        10,
        100,
        1_000,
        10_000,
        100_000,
        1_000_000,
        10_000_000,
        100_000_000,
        1_000_000_000,
    ];
    proof {
        lemma_pow10_values();
    }
    table[n]
}

/// Digit-string value and digit check for a byte range, in one pass.
/// Returns the value of the first `keep` digits (the rest only checked),
/// or `None` when a byte is no digit.
#[verifier::loop_isolation(false)]
fn digits_of(s: &[u8], from: usize, to: usize, keep: usize) -> (r: Option<u64>)
    requires
        from <= to <= s@.len(),
        keep <= 9,
    ensures
        match r {
            Some(v) => {
                let part = s@.subrange(from as int, to as int);
                &&& all_digits(part)
                &&& v == digits_val(part.take(if part.len() < keep { part.len() as int } else { keep as int }))
                &&& v < 1_000_000_000
            },
            None => !all_digits(s@.subrange(from as int, to as int)),
        },
{
    let ghost part: Seq<u8> = s@.subrange(from as int, to as int);
    let mut acc: u64 = 0;
    let mut i: usize = from;
    while i < to
        invariant
            from <= i <= to <= s@.len(),
            keep <= 9,
            part == s@.subrange(from as int, to as int),
            all_digits(part.take(i - from)),
            acc == digits_val(part.take(
                if i - from < keep { (i - from) as int } else { keep as int },
            )),
            acc < 1_000_000_000,
        decreases to - i,
    {
        let b = s[i];
        if b < 48 || b > 57 {
            proof {
                assert(part[i - from] == s@[i as int]);
                assert(!is_digit(part[i - from]));
            }
            return None;
        }
        proof {
            assert(part[i - from] == s@[i as int]);
            assert(part.take(i - from + 1).drop_last() =~= part.take(i - from));
        }
        if i - from < keep {
            proof {
                lemma_digits_val_step(part, i - from);
                assert(digits_val(part.take(i - from)) < pow10((i - from) as nat)) by {
                    lemma_digits_val_below_pow10(part.take(i - from));
                }
                assert(pow10((i - from) as nat) <= pow10(8)) by {
                    lemma_pow10_increases((i - from) as nat, 8);
                }
                lemma_pow10_values();
            }
            acc = acc * 10 + ((b - 48) as u64);
        }
        i = i + 1;
    }
    proof {
        assert(part.take(i - from) =~= part);
    }
    Some(acc)
}

/// The small powers of ten, written out.
pub proof fn lemma_pow10_values()
    ensures
        pow10(0) == 1,
        pow10(1) == 10,
        pow10(2) == 100,
        pow10(3) == 1_000,
        pow10(4) == 10_000,
        pow10(5) == 100_000,
        pow10(6) == 1_000_000,
        pow10(7) == 10_000_000,
        pow10(8) == 100_000_000,
        pow10(9) == 1_000_000_000,
{
    assert(pow10(0) == 1);
    assert(pow10(1) == 10);
    assert(pow10(2) == 100);
    assert(pow10(3) == 1_000);
    assert(pow10(4) == 10_000);
    assert(pow10(5) == 100_000);
    assert(pow10(6) == 1_000_000);
    assert(pow10(7) == 10_000_000);
    assert(pow10(8) == 100_000_000);
    assert(pow10(9) == 1_000_000_000);
}

/// The value of `n` digits is below `10^n`.
pub proof fn lemma_digits_val_below_pow10(s: Seq<u8>)
    requires
        all_digits(s),
    ensures
        digits_val(s) < pow10(s.len()),
    decreases s.len(),
{
    if s.len() > 0 {
        assert(all_digits(s.drop_last()));
        lemma_digits_val_below_pow10(s.drop_last());
    }
}

pub proof fn lemma_pow10_increases(a: nat, b: nat)
    requires
        a <= b,
    ensures
        pow10(a) <= pow10(b),
        pow10(a) >= 1,
    decreases b,
{
    if a < b {
        lemma_pow10_increases(a, (b - 1) as nat);
    } else if a > 0 {
        lemma_pow10_increases((a - 1) as nat, (b - 1) as nat);
    }
}

/// Parse a signed decimal numeral into nano units.
#[verifier::rlimit(30)]
#[verifier::loop_isolation(false)]
pub fn parse_decimal_nano(s: &[u8]) -> (r: Option<i64>)
    ensures
        r == spec_parse_decimal_nano(s@),
{
    let neg = s.len() > 0 && s[0] == 45;
    let start: usize = if s.len() > 0 && (s[0] == 45 || s[0] == 43) {
        1
    } else {
        0
    };
    let ghost t: Seq<u8> = s@.skip(start as int);
    proof {
        if start == 1 {
            assert(t =~= s@.drop_first());
        } else {
            assert(t =~= s@);
        }
    }
    // Find the first point, if any.
    let mut dot: usize = start;
    while dot < s.len() && s[dot] != 46
        invariant
            start <= dot <= s@.len(),
            forall|j: int| start <= j < dot ==> s@[j] != 46,
        decreases s@.len() - dot,
    {
        dot = dot + 1;
    }
    proof {
        t.index_of_first_ensures(46u8);
        if dot < s@.len() {
            assert(t[dot - start] == 46);
            assert(forall|j: int| 0 <= j < dot - start ==> t[j] != 46);
            assert(t.index_of_first(46u8) == Some(dot - start)) by {
                match t.index_of_first(46u8) {
                    Some(k) => {
                        if k < dot - start {
                            assert(t[k] == 46);
                        } else if k > dot - start {
                            assert(t[dot - start] != 46);
                        }
                    },
                    None => {
                        assert(t[dot - start] != 46);
                    },
                }
            }
        } else {
            assert(forall|j: int| 0 <= j < t.len() ==> t[j] != 46);
            assert(t.index_of_first(46u8) is None) by {
                match t.index_of_first(46u8) {
                    Some(k) => {
                        assert(t[k] == 46);
                    },
                    None => {},
                }
            }
        }
    }
    let ghost ip: Seq<u8> = t.take(dot - start);
    let ghost fp: Seq<u8> = if dot < s@.len() {
        t.skip(dot - start + 1)
    } else {
        Seq::empty()
    };
    // Whole part: at most nine digits, all kept.
    if dot - start > 9 {
        return None;
    }
    if dot == start && dot == s.len() {
        // No digits at all.
        return None;
    }
    proof {
        assert(ip =~= s@.subrange(start as int, dot as int));
    }
    let iv: u64 = match digits_of(s, start, dot, 9) {
        Some(v) => v,
        None => {
            return None;
        },
    };
    proof {
        assert(ip.take(if ip.len() < 9 { ip.len() as int } else { 9 }) =~= ip);
    }
    let fstart: usize = if dot < s.len() {
        dot + 1
    } else {
        dot
    };
    proof {
        assert(fp =~= s@.subrange(fstart as int, s@.len() as int));
    }
    if fstart == s.len() && dot == start {
        // A lone point between empty parts.
        return None;
    }
    let fcount: usize = s.len() - fstart;
    let fv: u64 = match digits_of(s, fstart, s.len(), 9) {
        Some(v) => v,
        None => {
            return None;
        },
    };
    let fnano: i64 = if fcount >= 9 {
        proof {
            assert(fp.take(9) =~= fp.take(if fp.len() < 9 { fp.len() as int } else { 9 }));
        }
        fv as i64
    } else {
        proof {
            assert(fp.take(if fp.len() < 9 { fp.len() as int } else { 9 }) =~= fp);
            lemma_digits_val_nonneg(fp);
            lemma_digits_val_below_pow10(fp);
            lemma_pow10_increases((9 - fp.len()) as nat, 9);
            lemma_pow10_values();
            vstd::arithmetic::mul::lemma_mul_upper_bound(
                digits_val(fp),
                pow10(fp.len()) - 1,
                pow10((9 - fp.len()) as nat),
                pow10((9 - fp.len()) as nat),
            );
            vstd::arithmetic::mul::lemma_mul_is_distributive_sub_other_way(
                pow10((9 - fp.len()) as nat),
                pow10(fp.len()),
                1,
            );
            assert(pow10(fp.len()) * pow10((9 - fp.len()) as nat) == pow10(9)) by {
                lemma_pow10_adds(fp.len(), (9 - fp.len()) as nat);
            }
            assert(digits_val(fp) * pow10((9 - fp.len()) as nat) <= pow10(9)
                - pow10((9 - fp.len()) as nat));
        }
        (fv as i64) * pow10_exec(9 - fcount)
    };
    let v: i64 = (iv as i64) * NANO + fnano;
    if neg {
        Some(-v)
    } else {
        Some(v)
    }
}

pub proof fn lemma_pow10_adds(a: nat, b: nat)
    ensures
        pow10(a) * pow10(b) == pow10(a + b),
    decreases a,
{
    if a == 0 {
        assert(pow10(0) == 1);
    } else {
        lemma_pow10_adds((a - 1) as nat, b);
        assert(pow10(a) * pow10(b) == 10 * (pow10((a - 1) as nat) * pow10(b)))
            by (nonlinear_arith)
            requires pow10(a) == 10 * pow10((a - 1) as nat),
        ;
    }
}

} // verus!
