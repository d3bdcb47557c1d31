//! The classifier compiler: parses a serialized decision-tree graph, rebuilds
//! the owned binary tree, lowers it to nested conditional vote-accumulation
//! source, and interprets it over feature vectors so the lowering can be
//! checked against the walk.
//!
//! Feature values and thresholds are exact decimals: a feature value is an
//! integer in micro units (millionths), a threshold a decimal mantissa with
//! its scale. Comparisons are exact, so boundary decisions parsed from the
//! graph text are preserved.

use vstd::prelude::*;
use vstd::string::StringSliceAdditionalSpecFns;

use crate::error::ParseError;
use crate::textfmt::{dec_u64, dec_usize, spec_dec_nat};

verus! {

/// Ten to the `n`.
pub open spec fn spec_pow10(n: nat) -> int
    decreases n,
{
    if n == 0 {
        1
    } else {
        10 * spec_pow10((n - 1) as nat)
    }
}

/// Powers of ten grow.
proof fn lemma_pow10_monotonic(a: nat, b: nat)
    requires
        a <= b,
    ensures
        spec_pow10(a) <= spec_pow10(b),
        spec_pow10(a) >= 1,
    decreases b,
{
    if b > 0 {
        if a == b {
            lemma_pow10_monotonic((a - 1) as nat, (b - 1) as nat);
        } else {
            lemma_pow10_monotonic(a, (b - 1) as nat);
        }
    }
}

/// Ten to the `n`, executable; `n` at most 18 so the result fits `i128`
/// comfortably under later products.
pub fn pow10_i128(n: u32) -> (r: i128)
    requires
        n <= 18,
    ensures
        r == spec_pow10(n as nat),
        r >= 1,
{
    let mut r: i128 = 1;
    let mut i: u32 = 0;
    proof {
        lemma_pow10_monotonic(0, 18);
        proof_pow10_18();
    }
    while i < n
        invariant
            i <= n <= 18,
            r == spec_pow10(i as nat),
            1 <= r,
            r <= spec_pow10(18),
            spec_pow10(18) == 1_000_000_000_000_000_000,
        decreases n - i,
    {
        proof {
            lemma_pow10_monotonic((i + 1) as nat, 18);
            proof_pow10_18();
        }
        r = r * 10;
        i += 1;
    }
    r
}

/// The concrete value of the largest power of ten the library uses.
proof fn proof_pow10_18()
    ensures
        spec_pow10(18) == 1_000_000_000_000_000_000,
{
    reveal_with_fuel(spec_pow10, 19);
}

/// A decimal digit byte.
pub open spec fn spec_is_digit(b: u8) -> bool {
    ('0' as u8) <= b <= ('9' as u8)
}

/// First index at or after `i` that does not hold a digit.
pub open spec fn spec_num_end(s: Seq<u8>, i: int) -> int
    decreases s.len() - i,
{
    if i < 0 || i >= s.len() {
        i
    } else if spec_is_digit(s[i]) {
        spec_num_end(s, i + 1)
    } else {
        i
    }
}

/// The value of the digit run `s[i..j)`.
pub open spec fn spec_digits_val(s: Seq<u8>, i: int, j: int) -> int
    decreases j - i,
{
    if j <= i {
        0
    } else {
        spec_digits_val(s, i, j - 1) * 10 + (s[j - 1] - ('0' as u8))
    }
}

/// Digit runs have non-negative value.
proof fn lemma_digits_val_nonneg(s: Seq<u8>, i: int, j: int)
    requires
        forall|p: int| i <= p < j ==> spec_is_digit(#[trigger] s[p]),
    ensures
        spec_digits_val(s, i, j) >= 0,
    decreases j - i,
{
    if j > i {
        lemma_digits_val_nonneg(s, i, j - 1);
    }
}

/// Everything inside a digit run is a digit.
proof fn lemma_num_end_digits(s: Seq<u8>, i: int, j: int)
    requires
        0 <= i,
        j == spec_num_end(s, i),
    ensures
        i <= j <= s.len() || j == i,
        forall|p: int| i <= p < j ==> spec_is_digit(#[trigger] s[p]),
    decreases s.len() - i,
{
    if 0 <= i < s.len() && spec_is_digit(s[i]) {
        lemma_num_end_digits(s, i + 1, j);
    }
}

/// Skip to the first byte at or after `i` that is not a digit.
pub fn num_end(s: &[u8], i: usize) -> (r: usize)
    requires
        i <= s@.len(),
    ensures
        r == spec_num_end(s@, i as int),
        i <= r <= s@.len(),
    decreases s@.len() - i,
{
    if i < s.len() && ('0' as u8) <= s[i] && s[i] <= ('9' as u8) {
        num_end(s, i + 1)
    } else {
        i
    }
}

/// The value of the digit run `s[i..j)`, or `None` when it exceeds `u64`.
pub fn digits_value(s: &[u8], i: usize, j: usize) -> (r: Option<u64>)
    requires
        i <= j <= s@.len(),
        forall|p: int| i <= p < j ==> spec_is_digit(#[trigger] s@[p]),
    ensures
        r is Some <==> spec_digits_val(s@, i as int, j as int) <= u64::MAX,
        r matches Some(v) ==> v == spec_digits_val(s@, i as int, j as int),
    decreases j - i,
{
    if j <= i {
        Some(0)
    } else {
        proof {
            lemma_digits_val_nonneg(s@, i as int, j as int - 1);
        }
        match digits_value(s, i, j - 1) {
            None => {
                proof {
                    let prev = spec_digits_val(s@, i as int, j as int - 1);
                    let d = s@[j as int - 1] - ('0' as u8);
                    assert(spec_digits_val(s@, i as int, j as int) == prev * 10 + d);
                    assert(prev * 10 >= prev) by (nonlinear_arith)
                        requires
                            prev >= 0,
                    ;
                }
                None
            },
            Some(prev) => {
                let d = s[j - 1] - ('0' as u8);
                let wide: u128 = prev as u128 * 10 + d as u128;
                if wide > u64::MAX as u128 {
                    None
                } else {
                    Some(wide as u64)
                }
            },
        }
    }
}

/// An exact decimal threshold: its value is `mantissa / 10^scale`.
#[derive(Clone, Copy, PartialEq, Eq, Structural, Debug)]
pub struct Threshold {
    pub mantissa: i64,
    pub scale: u32,
}

impl Threshold {
    /// Bounds under which exact comparison in `i128` cannot overflow.
    pub open spec fn wf(&self) -> bool {
        &&& self.scale <= 18
        &&& -spec_pow10(18) < self.mantissa as int
        &&& (self.mantissa as int) < spec_pow10(18)
    }
}

/// Exact comparison of a micro-unit feature value against a threshold:
/// `feat/10^6 <= mantissa/10^scale`, cross-multiplied so nothing is rounded.
pub open spec fn spec_le_threshold(feat_micro: int, t: Threshold) -> bool {
    feat_micro * spec_pow10(t.scale as nat) <= t.mantissa * spec_pow10(6)
}

/// Exact threshold comparison, executable.
pub fn feature_le_threshold(feat_micro: i64, t: &Threshold) -> (r: bool)
    requires
        t.wf(),
    ensures
        r == spec_le_threshold(feat_micro as int, *t),
{
    proof {
        proof_pow10_18();
        reveal_with_fuel(spec_pow10, 7);
        lemma_pow10_monotonic(t.scale as nat, 18);
        lemma_pow10_monotonic(0, t.scale as nat);
        lemma_pow10_monotonic(6, 18);
        lemma_pow10_monotonic(0, 6);
        let p = spec_pow10(t.scale as nat);
        assert(-(0x8000_0000_0000_0000_0000_0000_0000_0000int)
            < feat_micro as int * p < 0x8000_0000_0000_0000_0000_0000_0000_0000int)
            by (nonlinear_arith)
            requires
                1 <= p <= 1_000_000_000_000_000_000,
                -0x8000_0000_0000_0000 <= feat_micro as int,
                (feat_micro as int) <= 0x7fff_ffff_ffff_ffff,
        ;
        let q = spec_pow10(6);
        assert(-(0x8000_0000_0000_0000_0000_0000_0000_0000int)
            < t.mantissa as int * q < 0x8000_0000_0000_0000_0000_0000_0000_0000int)
            by (nonlinear_arith)
            requires
                1 <= q <= 1_000_000,
                -1_000_000_000_000_000_000 < t.mantissa as int,
                (t.mantissa as int) < 1_000_000_000_000_000_000,
        ;
    }
    let lhs: i128 = feat_micro as i128 * pow10_i128(t.scale);
    let rhs: i128 = t.mantissa as i128 * pow10_i128(6);
    lhs <= rhs
}

/// A decision: route by comparing one feature against a threshold.
#[derive(Clone, Copy, PartialEq, Eq, Structural, Debug)]
pub struct Decision {
    pub feature_idx: usize,
    pub threshold: Threshold,
}

/// A leaf: predict one class.
#[derive(Clone, Copy, PartialEq, Eq, Structural, Debug)]
pub struct Prediction {
    pub class: usize,
}

/// Does `s` start with `prefix` at position 0?
pub open spec fn spec_has_prefix(s: Seq<u8>, prefix: Seq<u8>) -> bool {
    s.len() >= prefix.len() && s.subrange(0, prefix.len() as int) == prefix
}

/// The bytes of `class = `, the prediction-label prefix.
pub open spec fn spec_class_prefix() -> Seq<u8> {
    seq![
        'c' as u8,
        'l' as u8,
        'a' as u8,
        's' as u8,
        's' as u8,
        ' ' as u8,
        '=' as u8,
        ' ' as u8,
    ]
}

/// The bytes of `x[`, the decision-label prefix.
pub open spec fn spec_feature_prefix() -> Seq<u8> {
    seq!['x' as u8, '[' as u8]
}

/// The bytes of `] <= `, between a feature index and its threshold.
pub open spec fn spec_le_infix() -> Seq<u8> {
    seq![']' as u8, ' ' as u8, '<' as u8, '=' as u8, ' ' as u8]
}

/// What parsing one label line yields: no match (try the next line), a
/// match, or a malformed line that fails the whole parse.
pub open spec fn spec_parse_prediction(line: Seq<u8>) -> Result<Option<Prediction>, ParseError> {
    if !spec_has_prefix(line, spec_class_prefix()) {
        Ok(None)
    } else {
        let p = spec_class_prefix().len() as int;
        let i = if p < line.len() && line[p] == ('+' as u8) {
            p + 1
        } else {
            p
        };
        let j = spec_num_end(line, i);
        if i == j || j != line.len() || spec_digits_val(line, i, j) > u32::MAX {
            Err(ParseError::BadNumber { position: p as usize })
        } else {
            Ok(Some(Prediction { class: spec_digits_val(line, i, j) as usize }))
        }
    }
}

/// The decimal-token grammar: an optional sign, one or more integer digits,
/// optionally a point and one or more fraction digits, and optionally an
/// exponent -- `e` or `E`, an optional sign, one or two digits -- spanning
/// the whole span `[from, len)`. The value is kept exact, so at most 18
/// significant digits, an exponent of at most 18, and a resulting scale of
/// at most 18 are accepted; anything wider is rejected rather than rounded,
/// and non-finite spellings have no exact-decimal form and are rejected too.
pub open spec fn spec_parse_decimal(s: Seq<u8>, from: int) -> Result<Threshold, ParseError> {
    let neg = from < s.len() && s[from] == ('-' as u8);
    let start = if from < s.len() && (s[from] == ('-' as u8) || s[from] == ('+' as u8)) {
        from + 1
    } else {
        from
    };
    let int_end = spec_num_end(s, start);
    if int_end == start {
        Err(ParseError::BadNumber { position: from as usize })
    } else {
        let has_frac = int_end < s.len() && s[int_end] == ('.' as u8);
        let frac_end = if has_frac {
            spec_num_end(s, int_end + 1)
        } else {
            int_end
        };
        if has_frac && frac_end == int_end + 1 {
            Err(ParseError::BadNumber { position: from as usize })
        } else {
            let has_exp = frac_end < s.len() && (s[frac_end] == ('e' as u8) || s[frac_end] == (
            'E' as u8));
            let exp_digits = if has_exp && frac_end + 1 < s.len() && (s[frac_end + 1] == (
            '-' as u8) || s[frac_end + 1] == ('+' as u8)) {
                frac_end + 2
            } else {
                frac_end + 1
            };
            let exp_neg = has_exp && frac_end + 1 < s.len() && s[frac_end + 1] == ('-' as u8);
            let exp_end = if has_exp {
                spec_num_end(s, exp_digits)
            } else {
                frac_end
            };
            let token_end = if has_exp {
                exp_end
            } else {
                frac_end
            };
            if (has_exp && exp_end == exp_digits) || token_end != s.len() {
                Err(ParseError::BadNumber { position: from as usize })
            } else {
                let int_digits = int_end - start;
                let frac_digits = if has_frac {
                    frac_end - int_end - 1
                } else {
                    0
                };
                if int_digits + frac_digits > 18 || (has_exp && (exp_end - exp_digits > 2
                    || spec_digits_val(s, exp_digits, exp_end) > 18)) {
                    Err(ParseError::BadNumber { position: from as usize })
                } else {
                    let digits_val = spec_digits_val(s, start, int_end) * spec_pow10(
                        frac_digits as nat,
                    ) + (if has_frac {
                        spec_digits_val(s, int_end + 1, frac_end)
                    } else {
                        0
                    });
                    let exp = if !has_exp {
                        0
                    } else if exp_neg {
                        -spec_digits_val(s, exp_digits, exp_end)
                    } else {
                        spec_digits_val(s, exp_digits, exp_end)
                    };
                    let shift = exp - frac_digits;
                    let magnitude = if shift >= 0 {
                        digits_val * spec_pow10(shift as nat)
                    } else {
                        digits_val
                    };
                    let scale = if shift >= 0 {
                        0
                    } else {
                        -shift
                    };
                    if scale > 18 || magnitude >= spec_pow10(18) {
                        Err(ParseError::BadNumber { position: from as usize })
                    } else {
                        Ok(
                            Threshold {
                                mantissa: (if neg {
                                    -magnitude
                                } else {
                                    magnitude
                                }) as i64,
                                scale: scale as u32,
                            },
                        )
                    }
                }
            }
        }
    }
}

/// What parsing one label line as a decision yields.
pub open spec fn spec_parse_decision(line: Seq<u8>) -> Result<Option<Decision>, ParseError> {
    if !spec_has_prefix(line, spec_feature_prefix()) {
        Ok(None)
    } else {
        let p = spec_feature_prefix().len() as int;
        let i = if p < line.len() && line[p] == ('+' as u8) {
            p + 1
        } else {
            p
        };
        let j = spec_num_end(line, i);
        if i == j || spec_digits_val(line, i, j) > u32::MAX {
            Err(ParseError::BadNumber { position: p as usize })
        } else if !(j + 5 <= line.len() && line.subrange(j, j + 5) == spec_le_infix()) {
            Err(ParseError::BadSyntax { position: j as usize })
        } else {
            match spec_parse_decimal(line, j + 5) {
                Err(e) => Err(e),
                Ok(t) => Ok(
                    Some(
                        Decision {
                            feature_idx: spec_digits_val(line, i, j) as usize,
                            threshold: t,
                        },
                    ),
                ),
            }
        }
    }
}

impl Prediction {
    /// Scan one label line for the `class = <id>` pattern: `Ok(None)` when
    /// the prefix is absent, an error when the prefix is present but the id
    /// is malformed or oversized.
    pub fn try_parse_label_attr(line: &[u8]) -> (r: Result<Option<Prediction>, ParseError>)
        ensures
            r == spec_parse_prediction(line@),
    {
        if line.len() < 8 || line[0] != ('c' as u8) || line[1] != ('l' as u8) || line[2] != (
        'a' as u8) || line[3] != ('s' as u8) || line[4] != ('s' as u8) || line[5] != (' ' as u8)
            || line[6] != ('=' as u8) || line[7] != (' ' as u8) {
            proof {
                if line@.len() >= 8 {
                    assert(spec_has_prefix(line@, spec_class_prefix()) ==> line@.subrange(0, 8)[0]
                        == ('c' as u8) && line@.subrange(0, 8)[1] == ('l' as u8) && line@.subrange(
                        0,
                        8,
                    )[2] == ('a' as u8) && line@.subrange(0, 8)[3] == ('s' as u8) && line@.subrange(
                        0,
                        8,
                    )[4] == ('s' as u8) && line@.subrange(0, 8)[5] == (' ' as u8) && line@.subrange(
                        0,
                        8,
                    )[6] == ('=' as u8) && line@.subrange(0, 8)[7] == (' ' as u8));
                }
            }
            return Ok(None);
        }
        proof {
            assert(line@.subrange(0, 8) =~= spec_class_prefix());
        }
        let i = if line.len() > 8 && line[8] == ('+' as u8) {
            9
        } else {
            8
        };
        let j = num_end(line, i);
        proof {
            lemma_num_end_digits(line@, i as int, j as int);
        }
        if j == i || j != line.len() {
            return Err(ParseError::BadNumber { position: 8 });
        }
        match digits_value(line, i, j) {
            None => Err(ParseError::BadNumber { position: 8 }),
            Some(v) => {
                if v > u32::MAX as u64 {
                    Err(ParseError::BadNumber { position: 8 })
                } else {
                    Ok(Some(Prediction { class: v as usize }))
                }
            },
        }
    }
}

/// Parse a decimal token filling `s[from..]`, yielding its exact mantissa
/// and scale.
#[verifier::rlimit(100)]
#[verifier::spinoff_prover]
pub fn parse_decimal(s: &[u8], from: usize) -> (r: Result<Threshold, ParseError>)
    requires
        from <= s@.len(),
    ensures
        r == spec_parse_decimal(s@, from as int),
        r matches Ok(t) ==> t.wf(),
{
    proof {
        proof_pow10_18();
    }
    let neg = from < s.len() && s[from] == ('-' as u8);
    let start = if from < s.len() && (s[from] == ('-' as u8) || s[from] == ('+' as u8)) {
        from + 1
    } else {
        from
    };
    let int_end = num_end(s, start);
    proof {
        lemma_num_end_digits(s@, start as int, int_end as int);
    }
    if int_end == start {
        return Err(ParseError::BadNumber { position: from });
    }
    let has_frac = int_end < s.len() && s[int_end] == ('.' as u8);
    let frac_end = if has_frac {
        num_end(s, int_end + 1)
    } else {
        int_end
    };
    proof {
        if has_frac {
            lemma_num_end_digits(s@, int_end as int + 1, frac_end as int);
        }
    }
    if has_frac && frac_end == int_end + 1 {
        return Err(ParseError::BadNumber { position: from });
    }
    let has_exp = frac_end < s.len() && (s[frac_end] == ('e' as u8) || s[frac_end] == ('E' as u8));
    let exp_digits = if has_exp {
        if frac_end + 1 < s.len() && (s[frac_end + 1] == ('-' as u8) || s[frac_end + 1] == (
        '+' as u8)) {
            frac_end + 2
        } else {
            frac_end + 1
        }
    } else {
        0
    };
    let exp_neg = has_exp && frac_end + 1 < s.len() && s[frac_end + 1] == ('-' as u8);
    let exp_end = if has_exp {
        num_end(s, exp_digits)
    } else {
        frac_end
    };
    proof {
        if has_exp {
            lemma_num_end_digits(s@, exp_digits as int, exp_end as int);
        }
    }
    let token_end = if has_exp {
        exp_end
    } else {
        frac_end
    };
    if (has_exp && exp_end == exp_digits) || token_end != s.len() {
        return Err(ParseError::BadNumber { position: from });
    }
    let int_digits = int_end - start;
    let frac_digits = if has_frac {
        frac_end - int_end - 1
    } else {
        0
    };
    if int_digits + frac_digits > 18 {
        return Err(ParseError::BadNumber { position: from });
    }
    if has_exp && exp_end - exp_digits > 2 {
        return Err(ParseError::BadNumber { position: from });
    }
    let exp_abs: u64 = if has_exp {
        match digits_value(s, exp_digits, exp_end) {
            Some(v) => v,
            None => {
                proof {
                    lemma_digits_bounded_by_count(s@, exp_digits as int, exp_end as int);
                    reveal_with_fuel(spec_pow10, 4);
                    assert(false);
                }
                return Err(ParseError::BadNumber { position: from });
            },
        }
    } else {
        0
    };
    if has_exp && exp_abs > 18 {
        return Err(ParseError::BadNumber { position: from });
    }
    let int_val = match digits_value(s, start, int_end) {
        Some(v) => v,
        None => {
            proof {
                lemma_digits_bounded_by_count(s@, start as int, int_end as int);
                lemma_pow10_monotonic((int_end - start) as nat, 18);
                assert(false);
            }
            return Err(ParseError::BadNumber { position: from });
        },
    };
    let frac_val: u64 = if has_frac {
        match digits_value(s, int_end + 1, frac_end) {
            Some(v) => v,
            None => {
                proof {
                    lemma_digits_bounded_by_count(s@, int_end as int + 1, frac_end as int);
                    lemma_pow10_monotonic((frac_end - int_end - 1) as nat, 18);
                    assert(false);
                }
                return Err(ParseError::BadNumber { position: from });
            },
        }
    } else {
        0
    };
    proof {
        lemma_digits_bounded_by_count(s@, start as int, int_end as int);
        if has_frac {
            lemma_digits_bounded_by_count(s@, int_end as int + 1, frac_end as int);
        }
        lemma_digits_val_nonneg(s@, start as int, int_end as int);
        lemma_scaled_digits_fit(
            spec_digits_val(s@, start as int, int_end as int),
            int_digits as nat,
            frac_val as int,
            frac_digits as nat,
        );
        lemma_pow10_monotonic((int_digits + frac_digits) as nat, 18);
    }
    let digits_val: i128 = int_val as i128 * pow10_i128(frac_digits as u32) + frac_val as i128;
    let exp: i64 = if !has_exp {
        0
    } else if exp_neg {
        -(exp_abs as i64)
    } else {
        exp_abs as i64
    };
    let shift: i64 = exp - frac_digits as i64;
    let magnitude: i128 = if shift >= 0 {
        proof {
            lemma_pow10_monotonic(shift as nat, 18);
            assert(digits_val as int * spec_pow10(shift as nat) < spec_pow10(18) * spec_pow10(18)
                && digits_val as int * spec_pow10(shift as nat) >= 0) by (nonlinear_arith)
                requires
                    0 <= digits_val as int,
                    (digits_val as int) < spec_pow10(18),
                    1 <= spec_pow10(shift as nat) <= spec_pow10(18),
                    spec_pow10(18) == 1_000_000_000_000_000_000,
            ;
        }
        digits_val * pow10_i128(shift as u32)
    } else {
        digits_val
    };
    let scale: i64 = if shift >= 0 {
        0
    } else {
        -shift
    };
    if scale > 18 || magnitude >= 1_000_000_000_000_000_000 {
        return Err(ParseError::BadNumber { position: from });
    }
    let mantissa: i64 = if neg {
        -(magnitude as i64)
    } else {
        magnitude as i64
    };
    Ok(Threshold { mantissa, scale: scale as u32 })
}

/// A digit run of `d` digits is smaller than ten to the `d`.
proof fn lemma_digits_bounded_by_count(s: Seq<u8>, i: int, j: int)
    requires
        i <= j,
        forall|p: int| i <= p < j ==> spec_is_digit(#[trigger] s[p]),
    ensures
        0 <= spec_digits_val(s, i, j) < spec_pow10((j - i) as nat),
    decreases j - i,
{
    if j <= i {
    } else {
        lemma_digits_bounded_by_count(s, i, j - 1);
        let prev = spec_digits_val(s, i, j - 1);
        let d = s[j - 1] - ('0' as u8);
        assert(prev * 10 + d < 10 * spec_pow10((j - 1 - i) as nat)) by (nonlinear_arith)
            requires
                0 <= prev < spec_pow10((j - 1 - i) as nat),
                0 <= d <= 9,
        ;
    }
}

/// An 18-digit decimal's mantissa fits strictly inside ten to the 18.
proof fn lemma_scaled_digits_fit(int_val: int, int_digits: nat, frac_val: int, frac_digits: nat)
    requires
        0 <= int_val < spec_pow10(int_digits),
        0 <= frac_val < spec_pow10(frac_digits),
        int_digits + frac_digits <= 18,
    ensures
        0 <= int_val * spec_pow10(frac_digits) + frac_val < spec_pow10(
            (int_digits + frac_digits) as nat,
        ),
        spec_pow10((int_digits + frac_digits) as nat) <= spec_pow10(18),
{
    lemma_pow10_monotonic((int_digits + frac_digits) as nat, 18);
    lemma_pow10_monotonic(0, frac_digits);
    assert(spec_pow10((int_digits + frac_digits) as nat) == spec_pow10(int_digits) * spec_pow10(
        frac_digits,
    )) by {
        lemma_pow10_adds(int_digits, frac_digits);
    }
    assert(0 <= int_val * spec_pow10(frac_digits) + frac_val < spec_pow10(int_digits) * spec_pow10(
        frac_digits,
    )) by (nonlinear_arith)
        requires
            0 <= int_val <= spec_pow10(int_digits) - 1,
            0 <= frac_val < spec_pow10(frac_digits),
            spec_pow10(frac_digits) >= 1,
    ;
}

/// Powers of ten multiply by adding exponents.
proof fn lemma_pow10_adds(a: nat, b: nat)
    ensures
        spec_pow10(a + b) == spec_pow10(a) * spec_pow10(b),
    decreases a,
{
    if a == 0 {
    } else {
        lemma_pow10_adds((a - 1) as nat, b);
        assert(spec_pow10(a + b) == 10 * spec_pow10((a - 1) as nat + b));
        assert(10 * (spec_pow10((a - 1) as nat) * spec_pow10(b)) == (10 * spec_pow10(
            (a - 1) as nat,
        )) * spec_pow10(b)) by (nonlinear_arith);
    }
}

impl Decision {
    /// Scan one label line for the `x[<idx>] <= <threshold>` pattern:
    /// `Ok(None)` when the `x[` prefix is absent, an error when the prefix is
    /// present but the index or threshold is malformed.
    pub fn try_parse_label_attr(line: &[u8]) -> (r: Result<Option<Decision>, ParseError>)
        ensures
            r == spec_parse_decision(line@),
    {
        if line.len() < 2 || line[0] != ('x' as u8) || line[1] != ('[' as u8) {
            proof {
                if line@.len() >= 2 {
                    assert(spec_has_prefix(line@, spec_feature_prefix()) ==> line@.subrange(0, 2)[0]
                        == ('x' as u8) && line@.subrange(0, 2)[1] == ('[' as u8));
                }
            }
            return Ok(None);
        }
        proof {
            assert(line@.subrange(0, 2) =~= spec_feature_prefix());
        }
        let i = if line.len() > 2 && line[2] == ('+' as u8) {
            3
        } else {
            2
        };
        let j = num_end(line, i);
        proof {
            lemma_num_end_digits(line@, i as int, j as int);
        }
        let idx = if j == i {
            return Err(ParseError::BadNumber { position: 2 });
        } else {
            match digits_value(line, i, j) {
                None => {
                    return Err(ParseError::BadNumber { position: 2 });
                },
                Some(v) => {
                    if v > u32::MAX as u64 {
                        return Err(ParseError::BadNumber { position: 2 });
                    }
                    v as usize
                },
            }
        };
        if !(line.len() >= 5 && j <= line.len() - 5 && line[j] == (']' as u8) && line[j + 1] == (
        ' ' as u8) && line[j + 2] == ('<' as u8) && line[j + 3] == ('=' as u8) && line[j + 4] == (
        ' ' as u8)) {
            proof {
                if j + 5 <= line@.len() {
                    assert(line@.subrange(j as int, j as int + 5) == spec_le_infix()
                        ==> line@.subrange(j as int, j as int + 5)[0] == (']' as u8)
                        && line@.subrange(j as int, j as int + 5)[1] == (' ' as u8)
                        && line@.subrange(j as int, j as int + 5)[2] == ('<' as u8)
                        && line@.subrange(j as int, j as int + 5)[3] == ('=' as u8)
                        && line@.subrange(j as int, j as int + 5)[4] == (' ' as u8));
                }
            }
            return Err(ParseError::BadSyntax { position: j });
        }
        proof {
            assert(line@.subrange(j as int, j as int + 5) =~= spec_le_infix());
        }
        match parse_decimal(line, j + 5) {
            Err(e) => Err(e),
            Ok(t) => Ok(Some(Decision { feature_idx: idx, threshold: t })),
        }
    }
}


/// One decision node of the reconstructed tree: either an internal decision
/// owning its two children, or a leaf prediction. Ownership is strictly a
/// tree, so the structure is finite and acyclic by construction.
#[derive(PartialEq, Eq, Debug)]
pub enum DecisionNode {
    Decision { decision: Decision, le_child: Box<DecisionNode>, gt_child: Box<DecisionNode> },
    Prediction(Prediction),
}

impl DecisionNode {
    /// Every threshold in the tree satisfies the comparison bounds.
    pub open spec fn wf(&self) -> bool
        decreases self,
    {
        match self {
            DecisionNode::Prediction(_) => true,
            DecisionNode::Decision { decision, le_child, gt_child } => {
                &&& decision.threshold.wf()
                &&& le_child.wf()
                &&& gt_child.wf()
            },
        }
    }

    /// Every feature index referenced anywhere in the tree is below `k`.
    pub open spec fn spec_features_lt(&self, k: int) -> bool
        decreases self,
    {
        match self {
            DecisionNode::Prediction(_) => true,
            DecisionNode::Decision { decision, le_child, gt_child } => {
                &&& (decision.feature_idx as int) < k
                &&& le_child.spec_features_lt(k)
                &&& gt_child.spec_features_lt(k)
            },
        }
    }

    /// The largest class index any leaf predicts.
    pub open spec fn spec_max_class(&self) -> int
        decreases self,
    {
        match self {
            DecisionNode::Prediction(p) => p.class as int,
            DecisionNode::Decision { decision, le_child, gt_child } => {
                if le_child.spec_max_class() > gt_child.spec_max_class() {
                    le_child.spec_max_class()
                } else {
                    gt_child.spec_max_class()
                }
            },
        }
    }

    /// The height of the tree: how deep the nesting of emitted blocks goes.
    pub open spec fn spec_height(&self) -> nat
        decreases self,
    {
        match self {
            DecisionNode::Prediction(_) => 0,
            DecisionNode::Decision { decision, le_child, gt_child } => {
                1 + if le_child.spec_height() > gt_child.spec_height() {
                    le_child.spec_height()
                } else {
                    gt_child.spec_height()
                }
            },
        }
    }

    /// The class the tree selects for a feature vector: walk the decisions,
    /// going left exactly when `feature <= threshold`.
    pub open spec fn spec_decide(&self, feats: Seq<i64>) -> int
        decreases self,
    {
        match self {
            DecisionNode::Prediction(p) => p.class as int,
            DecisionNode::Decision { decision, le_child, gt_child } => {
                if spec_le_threshold(feats[decision.feature_idx as int] as int,
                    decision.threshold) {
                    le_child.spec_decide(feats)
                } else {
                    gt_child.spec_decide(feats)
                }
            },
        }
    }

    /// Walk the tree over a feature vector of micro-unit values and return
    /// the selected class.
    pub fn decide(&self, features: &Vec<i64>) -> (r: usize)
        requires
            self.wf(),
            self.spec_features_lt(features@.len() as int),
        ensures
            r as int == self.spec_decide(features@),
        decreases self,
    {
        match self {
            DecisionNode::Prediction(p) => p.class,
            DecisionNode::Decision { decision, le_child, gt_child } => {
                if feature_le_threshold(features[decision.feature_idx], &decision.threshold) {
                    le_child.decide(features)
                } else {
                    gt_child.decide(features)
                }
            },
        }
    }
}

/// `level` levels of four-space indentation.
pub open spec fn spec_indent(level: nat) -> Seq<char>
    decreases level,
{
    if level == 0 {
        Seq::<char>::empty()
    } else {
        spec_indent((level - 1) as nat) + "    "@
    }
}

/// Append `level` levels of indentation.
pub fn write_indent(writer: &mut String, level: usize)
    ensures
        final(writer)@ == old(writer)@ + spec_indent(level as nat),
{
    let mut i: usize = 0;
    proof {
        assert(writer@ =~= old(writer)@ + spec_indent(0));
    }
    while i < level
        invariant
            i <= level,
            writer@ == old(writer)@ + spec_indent(i as nat),
        decreases level - i,
    {
        writer.append("    ");
        i += 1;
    }
}

/// The zero-padded decimal rendering of `v` to exactly `width` digits.
pub open spec fn spec_dec_padded(v: int, width: nat) -> Seq<char>
    decreases width,
{
    if width == 0 {
        Seq::<char>::empty()
    } else {
        spec_dec_padded(v / 10, (width - 1) as nat) + seq![
            crate::textfmt::spec_digit_char((v % 10) as nat),
        ]
    }
}

/// Zero-padded decimal rendering, executable.
pub fn dec_padded(v: u64, width: u32) -> (r: String)
    ensures
        r@ == spec_dec_padded(v as int, width as nat),
    decreases width,
{
    if width == 0 {
        String::new()
    } else {
        let mut r = dec_padded(v / 10, width - 1);
        let digit = crate::textfmt::digit_str(v % 10);
        r.append(digit);
        r
    }
}

/// The source text of a threshold: sign, integer digits, and -- when the
/// scale is positive -- a point and the zero-padded fraction digits, exactly
/// as the decimal was parsed.
pub open spec fn spec_threshold_text(t: Threshold) -> Seq<char> {
    let m = if t.mantissa < 0 {
        -(t.mantissa as int)
    } else {
        t.mantissa as int
    };
    let ip = m / spec_pow10(t.scale as nat);
    let fp = m % spec_pow10(t.scale as nat);
    (if t.mantissa < 0 {
        seq!['-']
    } else {
        Seq::<char>::empty()
    }) + spec_dec_nat(ip as nat) + (if t.scale == 0 {
        Seq::<char>::empty()
    } else {
        seq!['.'] + spec_dec_padded(fp, t.scale as nat)
    })
}

/// Ten to the `n` as a `u64`; `n` at most 18.
pub fn pow10_u64(n: u32) -> (r: u64)
    requires
        n <= 18,
    ensures
        r == spec_pow10(n as nat),
        r >= 1,
{
    proof {
        proof_pow10_18();
        lemma_pow10_monotonic(n as nat, 18);
        lemma_pow10_monotonic(0, n as nat);
    }
    pow10_i128(n) as u64
}

/// Render a threshold back to source text.
pub fn render_threshold(t: &Threshold) -> (r: String)
    requires
        t.wf(),
    ensures
        r@ == spec_threshold_text(*t),
{
    proof {
        proof_pow10_18();
        lemma_pow10_monotonic(t.scale as nat, 18);
        lemma_pow10_monotonic(0, t.scale as nat);
    }
    let m: u64 = if t.mantissa < 0 {
        (-(t.mantissa as i128)) as u64
    } else {
        t.mantissa as u64
    };
    let p = pow10_u64(t.scale);
    let ip = m / p;
    let fp = m % p;
    let mut r = String::new();
    if t.mantissa < 0 {
        proof {
            reveal_strlit("-");
        }
        r.append("-");
    }
    let int_digits = dec_u64(ip);
    r.append(int_digits.as_str());
    if t.scale > 0 {
        proof {
            reveal_strlit(".");
        }
        r.append(".");
        let frac_digits = dec_padded(fp, t.scale);
        r.append(frac_digits.as_str());
    }
    proof {
        assert(r@ =~= spec_threshold_text(*t));
    }
    r
}

/// The source text a node lowers to: a leaf emits one vote increment, a
/// decision emits an `if .. else` wrapping its children's blocks, indented
/// four spaces per level.
pub open spec fn spec_node_wgsl(n: DecisionNode, level: nat) -> Seq<char>
    decreases n,
{
    match n {
        DecisionNode::Prediction(p) => spec_indent(level) + "class_"@ + spec_dec_nat(p.class as nat)
            + "_score += 1;\n"@,
        DecisionNode::Decision { decision, le_child, gt_child } => spec_indent(level)
            + "if feature_"@ + spec_dec_nat((decision.feature_idx / 3) as nat) + "["@
            + spec_dec_nat((decision.feature_idx % 3) as nat) + "] <= "@ + spec_threshold_text(
            decision.threshold,
        ) + " {\n"@ + spec_node_wgsl(*le_child, level + 1) + spec_indent(level) + "} else {\n"@
            + spec_node_wgsl(*gt_child, level + 1) + spec_indent(level) + "}\n"@,
    }
}

impl DecisionNode {
    /// Append the node's lowered source text, the feature expression at
    /// channel `feature_idx % 3` of kernel `feature_idx / 3`.
    #[verifier::rlimit(100)]
    #[verifier::spinoff_prover]
    pub fn write_wgsl(&self, code: &mut String, indent_level: usize)
        requires
            self.wf(),
            indent_level + self.spec_height() <= 1_000_000,
        ensures
            final(code)@ == old(code)@ + spec_node_wgsl(*self, indent_level as nat),
        decreases self,
    {
        match self {
            DecisionNode::Prediction(p) => {
                write_indent(code, indent_level);
                code.append("class_");
                let class_digits = dec_usize(p.class);
                code.append(class_digits.as_str());
                code.append("_score += 1;\n");
                proof {
                    assert(code@ =~= old(code)@ + spec_node_wgsl(*self, indent_level as nat));
                }
            },
            DecisionNode::Decision { decision, le_child, gt_child } => {
                let ghost level = indent_level as nat;
                let ghost header = spec_indent(level) + "if feature_"@ + spec_dec_nat(
                    (decision.feature_idx / 3) as nat,
                ) + "["@ + spec_dec_nat((decision.feature_idx % 3) as nat) + "] <= "@
                    + spec_threshold_text(decision.threshold) + " {\n"@;
                write_indent(code, indent_level);
                code.append("if feature_");
                let var_digits = dec_usize(decision.feature_idx / 3);
                code.append(var_digits.as_str());
                code.append("[");
                let comp_digits = dec_usize(decision.feature_idx % 3);
                code.append(comp_digits.as_str());
                code.append("] <= ");
                let threshold_text = render_threshold(&decision.threshold);
                code.append(threshold_text.as_str());
                code.append(" {\n");
                proof {
                    assert(code@ =~= old(code)@ + header);
                }
                le_child.write_wgsl(code, indent_level + 1);
                write_indent(code, indent_level);
                code.append("} else {\n");
                proof {
                    assert(code@ =~= old(code)@ + (header + spec_node_wgsl(
                        **le_child,
                        level + 1,
                    ) + spec_indent(level) + "} else {\n"@));
                }
                let ghost upper = code@;
                gt_child.write_wgsl(code, indent_level + 1);
                write_indent(code, indent_level);
                code.append("}\n");
                proof {
                    assert(code@ =~= upper + (spec_node_wgsl(**gt_child, level + 1)
                        + spec_indent(level) + "}\n"@));
                    assert(code@ =~= old(code)@ + spec_node_wgsl(*self, level));
                }
            },
        }
    }
}

/// The comparison outcomes along the walk of a feature vector: one boolean
/// per decision, `true` when the walk goes to the `<=` child.
pub open spec fn spec_path(n: DecisionNode, feats: Seq<i64>) -> Seq<bool>
    decreases n,
{
    match n {
        DecisionNode::Prediction(_) => Seq::<bool>::empty(),
        DecisionNode::Decision { decision, le_child, gt_child } => {
            if spec_le_threshold(feats[decision.feature_idx as int] as int, decision.threshold) {
                seq![true] + spec_path(*le_child, feats)
            } else {
                seq![false] + spec_path(*gt_child, feats)
            }
        },
    }
}

/// The class at the end of a comparison path, if the path leads exactly to a
/// leaf: each `true` enters an `if` branch of the lowered code, each `false`
/// its `else` branch.
pub open spec fn spec_class_at(n: DecisionNode, path: Seq<bool>) -> Option<int>
    decreases n,
{
    match n {
        DecisionNode::Prediction(p) => if path.len() == 0 {
            Some(p.class as int)
        } else {
            None
        },
        DecisionNode::Decision { decision, le_child, gt_child } => if path.len() == 0 {
            None
        } else if path[0] {
            spec_class_at(*le_child, path.skip(1))
        } else {
            spec_class_at(*gt_child, path.skip(1))
        },
    }
}

/// Code generation is a faithful lowering of the parsed tree. A feature
/// vector determines exactly one sequence of comparison outcomes, that path
/// leads to exactly one leaf, and the class the walk selects is the class of
/// that leaf -- which is the vote increment the generated nested `if/else`
/// code executes, since each `true` outcome enters the emitted `if` block
/// holding the `<=` child's code and each `false` outcome the `else` block.
pub proof fn law_codegen_faithful(n: DecisionNode, feats: Seq<i64>, level: nat)
    ensures
        spec_class_at(n, spec_path(n, feats)) == Some(n.spec_decide(feats)),
        n matches DecisionNode::Decision { decision, le_child, gt_child } ==> spec_node_wgsl(
            n,
            level,
        ) == spec_indent(level) + "if feature_"@ + spec_dec_nat((decision.feature_idx / 3) as nat)
            + "["@ + spec_dec_nat((decision.feature_idx % 3) as nat) + "] <= "@
            + spec_threshold_text(decision.threshold) + " {\n"@ + spec_node_wgsl(
            *le_child,
            level + 1,
        ) + spec_indent(level) + "} else {\n"@ + spec_node_wgsl(*gt_child, level + 1)
            + spec_indent(level) + "}\n"@,
        n matches DecisionNode::Decision { decision, le_child, gt_child } ==> (spec_le_threshold(
            feats[decision.feature_idx as int] as int,
            decision.threshold,
        ) ==> n.spec_decide(feats) == le_child.spec_decide(feats)) && (!spec_le_threshold(
            feats[decision.feature_idx as int] as int,
            decision.threshold,
        ) ==> n.spec_decide(feats) == gt_child.spec_decide(feats)),
    decreases n,
{
    match n {
        DecisionNode::Prediction(_) => {},
        DecisionNode::Decision { decision, le_child, gt_child } => {
            law_codegen_faithful(*le_child, feats, level + 1);
            law_codegen_faithful(*gt_child, feats, level + 1);
            if spec_le_threshold(feats[decision.feature_idx as int] as int, decision.threshold) {
                assert((seq![true] + spec_path(*le_child, feats)).skip(1) =~= spec_path(
                    *le_child,
                    feats,
                ));
            } else {
                assert((seq![false] + spec_path(*gt_child, feats)).skip(1) =~= spec_path(
                    *gt_child,
                    feats,
                ));
            }
        },
    }
}


/// A whitespace byte.
pub open spec fn spec_is_ws(b: u8) -> bool {
    b == (' ' as u8) || b == ('\t' as u8) || b == ('\n' as u8) || b == ('\r' as u8)
}

/// First index at or after `i` that does not hold whitespace.
pub open spec fn spec_skip_ws(s: Seq<u8>, i: int) -> int
    decreases s.len() - i,
{
    if i < 0 || i >= s.len() {
        i
    } else if spec_is_ws(s[i]) {
        spec_skip_ws(s, i + 1)
    } else {
        i
    }
}

/// Skip whitespace.
pub fn skip_ws(s: &[u8], i: usize) -> (r: usize)
    requires
        i <= s@.len(),
    ensures
        r == spec_skip_ws(s@, i as int),
        i <= r <= s@.len(),
    decreases s@.len() - i,
{
    if i < s.len() && (s[i] == (' ' as u8) || s[i] == ('\t' as u8) || s[i] == ('\n' as u8) || s[i]
        == ('\r' as u8)) {
        skip_ws(s, i + 1)
    } else {
        i
    }
}

/// A byte that can start an identifier.
pub open spec fn spec_is_ident_start(b: u8) -> bool {
    ('a' as u8) <= b <= ('z' as u8) || ('A' as u8) <= b <= ('Z' as u8) || b == ('_' as u8)
}

/// A byte that can continue an identifier.
pub open spec fn spec_is_ident_char(b: u8) -> bool {
    spec_is_ident_start(b) || spec_is_digit(b)
}

/// First index at or after `i` that does not hold an identifier byte.
pub open spec fn spec_ident_end(s: Seq<u8>, i: int) -> int
    decreases s.len() - i,
{
    if i < 0 || i >= s.len() {
        i
    } else if spec_is_ident_char(s[i]) {
        spec_ident_end(s, i + 1)
    } else {
        i
    }
}

/// Skip an identifier.
pub fn ident_end(s: &[u8], i: usize) -> (r: usize)
    requires
        i <= s@.len(),
    ensures
        r == spec_ident_end(s@, i as int),
        i <= r <= s@.len(),
    decreases s@.len() - i,
{
    if i < s.len() && (('a' as u8) <= s[i] && s[i] <= ('z' as u8) || ('A' as u8) <= s[i] && s[i]
        <= ('Z' as u8) || s[i] == ('_' as u8) || ('0' as u8) <= s[i] && s[i] <= ('9' as u8)) {
        ident_end(s, i + 1)
    } else {
        i
    }
}

/// The index of the closing quote of a quoted value whose content starts at
/// `i`; a backslash escapes the next byte.
pub open spec fn spec_quoted_end(s: Seq<u8>, i: int) -> Option<int>
    decreases s.len() - i,
{
    if i < 0 || i >= s.len() {
        None
    } else if s[i] == ('"' as u8) {
        Some(i)
    } else if s[i] == ('\\' as u8) && i + 1 < s.len() {
        spec_quoted_end(s, i + 2)
    } else {
        spec_quoted_end(s, i + 1)
    }
}

/// Find the closing quote.
pub fn quoted_end(s: &[u8], i: usize) -> (r: Option<usize>)
    requires
        i <= s@.len(),
    ensures
        r matches Some(e) ==> spec_quoted_end(s@, i as int) == Some(e as int) && i <= e
            < s@.len(),
        r is None ==> spec_quoted_end(s@, i as int) is None,
    decreases s@.len() - i,
{
    if i >= s.len() {
        None
    } else if s[i] == ('"' as u8) {
        Some(i)
    } else if s[i] == ('\\' as u8) && i + 1 < s.len() {
        quoted_end(s, i + 2)
    } else {
        quoted_end(s, i + 1)
    }
}

/// A byte that can continue a bare attribute value: identifier bytes plus
/// the number punctuation graphviz allows there.
pub open spec fn spec_is_value_char(b: u8) -> bool {
    spec_is_ident_char(b) || b == ('.' as u8) || b == ('-' as u8) || b == ('+' as u8)
}

/// First index at or after `i` that does not hold a bare-value byte.
pub open spec fn spec_value_end(s: Seq<u8>, i: int) -> int
    decreases s.len() - i,
{
    if i < 0 || i >= s.len() {
        i
    } else if spec_is_value_char(s[i]) {
        spec_value_end(s, i + 1)
    } else {
        i
    }
}

/// Skip a bare attribute value.
pub fn value_end(s: &[u8], i: usize) -> (r: usize)
    requires
        i <= s@.len(),
    ensures
        r == spec_value_end(s@, i as int),
        i <= r <= s@.len(),
    decreases s@.len() - i,
{
    if i < s.len() && (('a' as u8) <= s[i] && s[i] <= ('z' as u8) || ('A' as u8) <= s[i] && s[i]
        <= ('Z' as u8) || s[i] == ('_' as u8) || ('0' as u8) <= s[i] && s[i] <= ('9' as u8) || s[i]
        == ('.' as u8) || s[i] == ('-' as u8) || s[i] == ('+' as u8)) {
        value_end(s, i + 1)
    } else {
        i
    }
}

/// The bytes of the attribute name `label`.
pub open spec fn spec_label_name() -> Seq<u8> {
    seq!['l' as u8, 'a' as u8, 'b' as u8, 'e' as u8, 'l' as u8]
}

/// Scan an attribute list from just after its `[` to just after its `]`,
/// remembering the span of the first `label` value. Pairs are separated by
/// commas, semicolons or whitespace; a value is quoted or bare.
pub open spec fn spec_attrs(s: Seq<u8>, i: int, label: Option<(usize, usize)>) -> Result<
    (Option<(usize, usize)>, int),
    ParseError,
>
    decreases s.len() - i,
{
    let j = spec_skip_ws(s, i);
    if j < i || j >= s.len() {
        Err(ParseError::BadSyntax { position: j as usize })
    } else if s[j] == (']' as u8) {
        Ok((label, j + 1))
    } else if s[j] == (',' as u8) || s[j] == (';' as u8) {
        spec_attrs(s, j + 1, label)
    } else if spec_is_ident_start(s[j]) {
        let k = spec_ident_end(s, j);
        let w = spec_skip_ws(s, k);
        if k <= j || w < k || w >= s.len() || s[w] != ('=' as u8) {
            Err(ParseError::BadSyntax { position: j as usize })
        } else {
            let v = spec_skip_ws(s, w + 1);
            if v < w + 1 || v >= s.len() {
                Err(ParseError::BadSyntax { position: v as usize })
            } else if s[v] == ('"' as u8) {
                match spec_quoted_end(s, v + 1) {
                    None => Err(ParseError::BadSyntax { position: v as usize }),
                    Some(e) => {
                        let new_label = if label is Some {
                            label
                        } else if s.subrange(j, k) == spec_label_name() {
                            Some(((v + 1) as usize, e as usize))
                        } else {
                            label
                        };
                        if e + 1 <= i || e >= s.len() {
                            Err(ParseError::BadSyntax { position: v as usize })
                        } else {
                            spec_attrs(s, e + 1, new_label)
                        }
                    },
                }
            } else {
                let e = spec_value_end(s, v);
                if e <= v || e > s.len() {
                    Err(ParseError::BadSyntax { position: v as usize })
                } else {
                    let new_label = if label is Some {
                        label
                    } else if s.subrange(j, k) == spec_label_name() {
                        Some((v as usize, e as usize))
                    } else {
                        label
                    };
                    spec_attrs(s, e, new_label)
                }
            }
        }
    } else {
        Err(ParseError::BadSyntax { position: j as usize })
    }
}

/// Scan an attribute list, executable.
pub fn attrs(s: &[u8], i: usize, label: Option<(usize, usize)>) -> (r: Result<
    (Option<(usize, usize)>, usize),
    ParseError,
>)
    requires
        i <= s@.len(),
    ensures
        r matches Ok((lab, nxt)) ==> spec_attrs(s@, i as int, label) == Ok::<
            (Option<(usize, usize)>, int),
            ParseError,
        >((lab, nxt as int)) && i < nxt <= s@.len(),
        r matches Err(e) ==> spec_attrs(s@, i as int, label) == Err::<
            (Option<(usize, usize)>, int),
            ParseError,
        >(e),
    decreases s@.len() - i,
{
    let j = skip_ws(s, i);
    if j >= s.len() {
        return Err(ParseError::BadSyntax { position: j });
    }
    if s[j] == (']' as u8) {
        return Ok((label, j + 1));
    }
    if s[j] == (',' as u8) || s[j] == (';' as u8) {
        return attrs(s, j + 1, label);
    }
    if ('a' as u8) <= s[j] && s[j] <= ('z' as u8) || ('A' as u8) <= s[j] && s[j] <= ('Z' as u8)
        || s[j] == ('_' as u8) {
        let k = ident_end(s, j);
        let w = skip_ws(s, k);
        if k <= j || w >= s.len() || s[w] != ('=' as u8) {
            return Err(ParseError::BadSyntax { position: j });
        }
        let is_label = k - j == 5 && s[j] == ('l' as u8) && s[j + 1] == ('a' as u8) && s[j + 2]
            == ('b' as u8) && s[j + 3] == ('e' as u8) && s[j + 4] == ('l' as u8);
        proof {
            if is_label {
                assert(s@.subrange(j as int, k as int) =~= spec_label_name());
            } else {
                assert(s@.subrange(j as int, k as int) != spec_label_name()) by {
                    if s@.subrange(j as int, k as int) == spec_label_name() {
                        assert(s@.subrange(j as int, k as int).len() == 5);
                        assert(s@.subrange(j as int, k as int)[0] == ('l' as u8));
                        assert(s@.subrange(j as int, k as int)[1] == ('a' as u8));
                        assert(s@.subrange(j as int, k as int)[2] == ('b' as u8));
                        assert(s@.subrange(j as int, k as int)[3] == ('e' as u8));
                        assert(s@.subrange(j as int, k as int)[4] == ('l' as u8));
                    }
                }
            }
        }
        let v = skip_ws(s, w + 1);
        if v >= s.len() {
            return Err(ParseError::BadSyntax { position: v });
        }
        if s[v] == ('"' as u8) {
            match quoted_end(s, v + 1) {
                None => Err(ParseError::BadSyntax { position: v }),
                Some(e) => {
                    let new_label = if label.is_some() {
                        label
                    } else if is_label {
                        Some((v + 1, e))
                    } else {
                        label
                    };
                    attrs(s, e + 1, new_label)
                },
            }
        } else {
            let e = value_end(s, v);
            if e <= v {
                return Err(ParseError::BadSyntax { position: v });
            }
            let new_label = if label.is_some() {
                label
            } else if is_label {
                Some((v, e))
            } else {
                label
            };
            attrs(s, e, new_label)
        }
    } else {
        Err(ParseError::BadSyntax { position: j })
    }
}


/// A directed edge of the parsed graph, by node ids.
#[derive(Clone, Copy, PartialEq, Eq, Structural, Debug)]
pub struct Edge {
    pub origin: u32,
    pub target: u32,
}

/// The flat intermediate form of the classifier graph: node ids with their
/// raw label bytes, and directed edges, both in source order. Used only to
/// reconstruct the tree, then discarded.
pub struct ParsedGraph {
    pub nodes: Vec<(u32, Vec<u8>)>,
    pub edges: Vec<Edge>,
}

/// The nodes with their label bytes as sequences.
pub open spec fn lift_nodes(nodes: Seq<(u32, Vec<u8>)>) -> Seq<(u32, Seq<u8>)> {
    nodes.map_values(|p: (u32, Vec<u8>)| (p.0, p.1@))
}

/// Pushing one node appends its lifted form.
proof fn lemma_lift_nodes_push(nodes: Seq<(u32, Vec<u8>)>, x: (u32, Vec<u8>))
    ensures
        lift_nodes(nodes.push(x)) == lift_nodes(nodes).push((x.0, x.1@)),
{
    assert(lift_nodes(nodes.push(x)) =~= lift_nodes(nodes).push((x.0, x.1@)));
}

/// Scan the statements between the braces: node statements (an id with an
/// attribute list holding its label), edge statements (`a -> b` with an
/// optional attribute list), default statements (an identifier with an
/// optional attribute list, skipped), and `;` separators, until the closing
/// brace.
pub open spec fn spec_stmts(
    s: Seq<u8>,
    i: int,
    nodes: Seq<(u32, Seq<u8>)>,
    edges: Seq<Edge>,
) -> Result<(Seq<(u32, Seq<u8>)>, Seq<Edge>), ParseError>
    decreases s.len() - i,
{
    let j = spec_skip_ws(s, i);
    if j < i || j >= s.len() {
        Err(ParseError::BadSyntax { position: j as usize })
    } else if s[j] == ('}' as u8) {
        Ok((nodes, edges))
    } else if s[j] == (';' as u8) {
        spec_stmts(s, j + 1, nodes, edges)
    } else if spec_is_digit(s[j]) {
        let e1 = spec_num_end(s, j);
        let v1 = spec_digits_val(s, j, e1);
        if e1 > s.len() || v1 > u32::MAX {
            Err(ParseError::BadNumber { position: j as usize })
        } else {
            let w = spec_skip_ws(s, e1);
            if w < e1 || w > s.len() {
                Err(ParseError::BadSyntax { position: w as usize })
            } else if w + 1 < s.len() && s[w] == ('-' as u8) && s[w + 1] == ('>' as u8) {
                let t = spec_skip_ws(s, w + 2);
                if t < w + 2 || t >= s.len() || !spec_is_digit(s[t]) {
                    Err(ParseError::BadSyntax { position: t as usize })
                } else {
                    let e2 = spec_num_end(s, t);
                    let v2 = spec_digits_val(s, t, e2);
                    if e2 > s.len() || v2 > u32::MAX {
                        Err(ParseError::BadNumber { position: t as usize })
                    } else {
                        let a = spec_skip_ws(s, e2);
                        let new_edges = edges.push(
                            Edge { origin: v1 as u32, target: v2 as u32 },
                        );
                        if a < e2 || a > s.len() {
                            Err(ParseError::BadSyntax { position: a as usize })
                        } else if a < s.len() && s[a] == ('[' as u8) {
                            match spec_attrs(s, a + 1, None) {
                                Err(e) => Err(e),
                                Ok((_, nxt)) => if nxt <= i || nxt > s.len() {
                                    Err(ParseError::BadSyntax { position: a as usize })
                                } else {
                                    spec_stmts(s, nxt, nodes, new_edges)
                                },
                            }
                        } else if a <= i {
                            Err(ParseError::BadSyntax { position: a as usize })
                        } else {
                            spec_stmts(s, a, nodes, new_edges)
                        }
                    }
                }
            } else if w < s.len() && s[w] == ('[' as u8) {
                match spec_attrs(s, w + 1, None) {
                    Err(e) => Err(e),
                    Ok((None, _)) => Err(ParseError::MissingLabel { node_id: v1 as u32 }),
                    Ok((Some((a, b)), nxt)) => if nxt <= i || nxt > s.len() || a > b || b
                        > s.len() {
                        Err(ParseError::BadSyntax { position: w as usize })
                    } else {
                        spec_stmts(
                            s,
                            nxt,
                            nodes.push((v1 as u32, s.subrange(a as int, b as int))),
                            edges,
                        )
                    },
                }
            } else {
                Err(ParseError::MissingLabel { node_id: v1 as u32 })
            }
        }
    } else if spec_is_ident_start(s[j]) {
        let k = spec_ident_end(s, j);
        let w = spec_skip_ws(s, k);
        if k <= j || w < k || w > s.len() {
            Err(ParseError::BadSyntax { position: j as usize })
        } else if w < s.len() && s[w] == ('[' as u8) {
            match spec_attrs(s, w + 1, None) {
                Err(e) => Err(e),
                Ok((_, nxt)) => if nxt <= i || nxt > s.len() {
                    Err(ParseError::BadSyntax { position: w as usize })
                } else {
                    spec_stmts(s, nxt, nodes, edges)
                },
            }
        } else {
            spec_stmts(s, w, nodes, edges)
        }
    } else {
        Err(ParseError::BadSyntax { position: j as usize })
    }
}

/// The bytes of the `digraph` keyword.
pub open spec fn spec_digraph_keyword() -> Seq<u8> {
    seq!['d' as u8, 'i' as u8, 'g' as u8, 'r' as u8, 'a' as u8, 'p' as u8, 'h' as u8]
}

/// Parse a whole graph description: the `digraph` header with its optional
/// name, then the brace-enclosed statements.
pub open spec fn spec_parse_graph(s: Seq<u8>) -> Result<
    (Seq<(u32, Seq<u8>)>, Seq<Edge>),
    ParseError,
> {
    let i = spec_skip_ws(s, 0);
    if !(0 <= i && i + 7 <= s.len() && s.subrange(i, i + 7) == spec_digraph_keyword() && (i + 7
        == s.len() || !spec_is_ident_char(s[i + 7]))) {
        Err(ParseError::NotDirectedGraph)
    } else {
        let j = spec_skip_ws(s, i + 7);
        let k = if 0 <= j < s.len() && spec_is_ident_start(s[j]) {
            spec_skip_ws(s, spec_ident_end(s, j))
        } else {
            j
        };
        if !(0 <= k < s.len() && s[k] == ('{' as u8)) {
            Err(ParseError::BadSyntax { position: k as usize })
        } else {
            spec_stmts(s, k + 1, Seq::<(u32, Seq<u8>)>::empty(), Seq::<Edge>::empty())
        }
    }
}

/// Scan the statements, executable; consumes and returns the accumulators.
#[verifier::rlimit(100)]
#[verifier::spinoff_prover]
pub fn parse_stmts(s: &[u8], i: usize, nodes: Vec<(u32, Vec<u8>)>, edges: Vec<Edge>) -> (r: Result<
    ParsedGraph,
    ParseError,
>)
    requires
        i <= s@.len(),
    ensures
        r matches Ok(g) ==> spec_stmts(s@, i as int, lift_nodes(nodes@), edges@) == Ok::<
            (Seq<(u32, Seq<u8>)>, Seq<Edge>),
            ParseError,
        >((lift_nodes(g.nodes@), g.edges@)),
        r matches Err(e) ==> spec_stmts(s@, i as int, lift_nodes(nodes@), edges@) == Err::<
            (Seq<(u32, Seq<u8>)>, Seq<Edge>),
            ParseError,
        >(e),
    decreases s@.len() - i,
{
    let j = skip_ws(s, i);
    if j >= s.len() {
        return Err(ParseError::BadSyntax { position: j });
    }
    if s[j] == ('}' as u8) {
        return Ok(ParsedGraph { nodes, edges });
    }
    if s[j] == (';' as u8) {
        return parse_stmts(s, j + 1, nodes, edges);
    }
    if ('0' as u8) <= s[j] && s[j] <= ('9' as u8) {
        let e1 = num_end(s, j);
        proof {
            lemma_num_end_digits(s@, j as int, e1 as int);
        }
        let v1 = match digits_value(s, j, e1) {
            None => {
                return Err(ParseError::BadNumber { position: j });
            },
            Some(v) => {
                if v > u32::MAX as u64 {
                    return Err(ParseError::BadNumber { position: j });
                }
                v as u32
            },
        };
        let w = skip_ws(s, e1);
        if w < s.len() && w + 1 < s.len() && s[w] == ('-' as u8) && s[w + 1] == ('>' as u8) {
            let t = skip_ws(s, w + 2);
            if t >= s.len() || !(('0' as u8) <= s[t] && s[t] <= ('9' as u8)) {
                return Err(ParseError::BadSyntax { position: t });
            }
            let e2 = num_end(s, t);
            proof {
                lemma_num_end_digits(s@, t as int, e2 as int);
            }
            let v2 = match digits_value(s, t, e2) {
                None => {
                    return Err(ParseError::BadNumber { position: t });
                },
                Some(v) => {
                    if v > u32::MAX as u64 {
                        return Err(ParseError::BadNumber { position: t });
                    }
                    v as u32
                },
            };
            let a = skip_ws(s, e2);
            let mut new_edges = edges;
            new_edges.push(Edge { origin: v1, target: v2 });
            if a < s.len() && s[a] == ('[' as u8) {
                match attrs(s, a + 1, None) {
                    Err(e) => Err(e),
                    Ok((_, nxt)) => parse_stmts(s, nxt, nodes, new_edges),
                }
            } else {
                parse_stmts(s, a, nodes, new_edges)
            }
        } else if w < s.len() && s[w] == ('[' as u8) {
            match attrs(s, w + 1, None) {
                Err(e) => Err(e),
                Ok((None, _)) => Err(ParseError::MissingLabel { node_id: v1 }),
                Ok((Some((a, b)), nxt)) => {
                    if a > b || b > s.len() {
                        return Err(ParseError::BadSyntax { position: w });
                    }
                    let label = vstd::slice::slice_to_vec(vstd::slice::slice_subrange(s, a, b));
                    let mut new_nodes = nodes;
                    let ghost pre_nodes = new_nodes@;
                    new_nodes.push((v1, label));
                    proof {
                        lemma_lift_nodes_push(pre_nodes, ((v1, label)));
                    }
                    parse_stmts(s, nxt, new_nodes, edges)
                },
            }
        } else {
            Err(ParseError::MissingLabel { node_id: v1 })
        }
    } else if ('a' as u8) <= s[j] && s[j] <= ('z' as u8) || ('A' as u8) <= s[j] && s[j] <= (
    'Z' as u8) || s[j] == ('_' as u8) {
        let k = ident_end(s, j);
        if k <= j {
            return Err(ParseError::BadSyntax { position: j });
        }
        let w = skip_ws(s, k);
        if w < s.len() && s[w] == ('[' as u8) {
            match attrs(s, w + 1, None) {
                Err(e) => Err(e),
                Ok((_, nxt)) => parse_stmts(s, nxt, nodes, edges),
            }
        } else {
            parse_stmts(s, w, nodes, edges)
        }
    } else {
        Err(ParseError::BadSyntax { position: j })
    }
}

/// Parse a whole graph description, executable.
#[verifier::rlimit(100)]
#[verifier::spinoff_prover]
pub fn parse_graph(s: &[u8]) -> (r: Result<ParsedGraph, ParseError>)
    ensures
        r matches Ok(g) ==> spec_parse_graph(s@) == Ok::<
            (Seq<(u32, Seq<u8>)>, Seq<Edge>),
            ParseError,
        >((lift_nodes(g.nodes@), g.edges@)),
        r matches Err(e) ==> spec_parse_graph(s@) == Err::<
            (Seq<(u32, Seq<u8>)>, Seq<Edge>),
            ParseError,
        >(e),
{
    let i = skip_ws(s, 0);
    let has_keyword = s.len() >= 7 && i <= s.len() - 7 && s[i] == ('d' as u8) && s[i + 1] == ('i' as u8) && s[i
        + 2] == ('g' as u8) && s[i + 3] == ('r' as u8) && s[i + 4] == ('a' as u8) && s[i + 5] == (
    'p' as u8) && s[i + 6] == ('h' as u8) && (i + 7 == s.len() || !(('a' as u8) <= s[i + 7] && s[i
        + 7] <= ('z' as u8) || ('A' as u8) <= s[i + 7] && s[i + 7] <= ('Z' as u8) || s[i + 7] == (
    '_' as u8) || ('0' as u8) <= s[i + 7] && s[i + 7] <= ('9' as u8)));
    proof {
        if i + 7 <= s@.len() {
            if has_keyword {
                assert(s@.subrange(i as int, i as int + 7) =~= spec_digraph_keyword());
            } else {
                assert(s@.subrange(i as int, i as int + 7) == spec_digraph_keyword() && (i + 7
                    == s@.len() || !spec_is_ident_char(s@[i as int + 7])) ==> {
                    let sub = s@.subrange(i as int, i as int + 7);
                    sub[0] == ('d' as u8) && sub[1] == ('i' as u8) && sub[2] == ('g' as u8)
                        && sub[3] == ('r' as u8) && sub[4] == ('a' as u8) && sub[5] == ('p' as u8)
                        && sub[6] == ('h' as u8)
                });
            }
        }
    }
    if !has_keyword {
        return Err(ParseError::NotDirectedGraph);
    }
    let j = skip_ws(s, i + 7);
    let k = if j < s.len() && (('a' as u8) <= s[j] && s[j] <= ('z' as u8) || ('A' as u8) <= s[j]
        && s[j] <= ('Z' as u8) || s[j] == ('_' as u8)) {
        skip_ws(s, ident_end(s, j))
    } else {
        j
    };
    if !(k < s.len() && s[k] == ('{' as u8)) {
        return Err(ParseError::BadSyntax { position: k });
    }
    let empty_nodes: Vec<(u32, Vec<u8>)> = Vec::new();
    let empty_edges: Vec<Edge> = Vec::new();
    proof {
        assert(lift_nodes(empty_nodes@) =~= Seq::<(u32, Seq<u8>)>::empty());
    }
    parse_stmts(s, k + 1, empty_nodes, empty_edges)
}


/// First index at or after `i` where the two-byte `\\n` line separator
/// starts, or the label's length when there is none.
pub open spec fn spec_find_sep(s: Seq<u8>, i: int) -> int
    decreases s.len() - i,
{
    if i < 0 || i >= s.len() {
        s.len() as int
    } else if s[i] == ('\\' as u8) && i + 1 < s.len() && s[i + 1] == ('n' as u8) {
        i
    } else {
        spec_find_sep(s, i + 1)
    }
}

/// The label's lines from position `i` on, split at each `\\n` escape.
pub open spec fn spec_lines(s: Seq<u8>, i: int) -> Seq<Seq<u8>>
    decreases s.len() - i,
{
    let p = spec_find_sep(s, i);
    if p < i || p + 2 > s.len() {
        seq![s.subrange(if i < 0 { 0int } else if i > s.len() { s.len() as int } else { i }, s.len() as int)]
    } else {
        seq![s.subrange(i, p)] + spec_lines(s, p + 2)
    }
}

/// Find the next line separator.
pub fn find_sep(s: &[u8], i: usize) -> (r: usize)
    requires
        i <= s@.len(),
    ensures
        r == spec_find_sep(s@, i as int),
        i <= r <= s@.len(),
    decreases s@.len() - i,
{
    if i >= s.len() {
        s.len()
    } else if s[i] == ('\\' as u8) && i + 1 < s.len() && s[i + 1] == ('n' as u8) {
        i
    } else {
        find_sep(s, i + 1)
    }
}

/// The lines, with each line's bytes as a sequence.
pub open spec fn lift_lines(lines: Seq<Vec<u8>>) -> Seq<Seq<u8>> {
    lines.map_values(|l: Vec<u8>| l@)
}

/// Split a label into its lines.
pub fn split_lines(s: &[u8], i: usize) -> (r: Vec<Vec<u8>>)
    requires
        i <= s@.len(),
    ensures
        lift_lines(r@) == spec_lines(s@, i as int),
    decreases s@.len() - i,
{
    let p = find_sep(s, i);
    if s.len() - p < 2 {
        let line = vstd::slice::slice_to_vec(vstd::slice::slice_subrange(s, i, s.len()));
        let mut r: Vec<Vec<u8>> = Vec::new();
        r.push(line);
        proof {
            assert(lift_lines(r@) =~= spec_lines(s@, i as int));
        }
        r
    } else {
        let line = vstd::slice::slice_to_vec(vstd::slice::slice_subrange(s, i, p));
        let mut rest = split_lines(s, p + 2);
        let ghost rest_view = rest@;
        let mut r: Vec<Vec<u8>> = Vec::new();
        r.push(line);
        r.append(&mut rest);
        proof {
            assert(r@ =~= seq![line] + rest_view);
            assert forall|q: int| 0 <= q < r@.len() implies #[trigger] lift_lines(r@)[q] == (seq![
                s@.subrange(i as int, p as int),
            ] + lift_lines(rest_view))[q] by {
                if q > 0 {
                    assert(r@[q] == rest_view[q - 1]);
                }
            }
            assert(lift_lines(r@) =~= seq![s@.subrange(i as int, p as int)] + lift_lines(
                rest_view,
            ));
            assert(lift_lines(r@) =~= spec_lines(s@, i as int));
        }
        r
    }
}

/// Scan a leaf's label lines for the prediction pattern: the first match
/// wins, a malformed matching line fails the parse, and a label where no
/// line matches is unrecognized.
pub open spec fn spec_scan_prediction(lines: Seq<Seq<u8>>, i: int, node_id: u32) -> Result<
    Prediction,
    ParseError,
>
    decreases lines.len() - i,
{
    if i < 0 || i >= lines.len() {
        Err(ParseError::UnrecognizedLabel { node_id })
    } else {
        match spec_parse_prediction(lines[i]) {
            Err(e) => Err(e),
            Ok(Some(p)) => Ok(p),
            Ok(None) => spec_scan_prediction(lines, i + 1, node_id),
        }
    }
}

/// Scan a decision node's label lines for the decision pattern.
pub open spec fn spec_scan_decision(lines: Seq<Seq<u8>>, i: int, node_id: u32) -> Result<
    Decision,
    ParseError,
>
    decreases lines.len() - i,
{
    if i < 0 || i >= lines.len() {
        Err(ParseError::UnrecognizedLabel { node_id })
    } else {
        match spec_parse_decision(lines[i]) {
            Err(e) => Err(e),
            Ok(Some(d)) => Ok(d),
            Ok(None) => spec_scan_decision(lines, i + 1, node_id),
        }
    }
}

/// Scan label lines for the prediction pattern, executable.
pub fn scan_prediction(lines: &Vec<Vec<u8>>, i: usize, node_id: u32) -> (r: Result<
    Prediction,
    ParseError,
>)
    requires
        i <= lines@.len(),
    ensures
        r == spec_scan_prediction(lift_lines(lines@), i as int, node_id),
    decreases lines@.len() - i,
{
    if i >= lines.len() {
        Err(ParseError::UnrecognizedLabel { node_id })
    } else {
        match Prediction::try_parse_label_attr(lines[i].as_slice()) {
            Err(e) => Err(e),
            Ok(Some(p)) => Ok(p),
            Ok(None) => scan_prediction(lines, i + 1, node_id),
        }
    }
}

/// Scan label lines for the decision pattern, executable.
pub fn scan_decision(lines: &Vec<Vec<u8>>, i: usize, node_id: u32) -> (r: Result<
    Decision,
    ParseError,
>)
    requires
        i <= lines@.len(),
    ensures
        r == spec_scan_decision(lift_lines(lines@), i as int, node_id),
        r matches Ok(d) ==> d.threshold.wf(),
    decreases lines@.len() - i,
{
    if i >= lines.len() {
        Err(ParseError::UnrecognizedLabel { node_id })
    } else {
        match Decision::try_parse_label_attr(lines[i].as_slice()) {
            Err(e) => Err(e),
            Ok(Some(d)) => {
                proof {
                    lemma_parse_decision_wf(lines@[i as int]@);
                }
                Ok(d)
            },
            Ok(None) => scan_decision(lines, i + 1, node_id),
        }
    }
}

/// A decision parsed from a label line carries a threshold inside the
/// comparison bounds.
proof fn lemma_parse_decision_wf(line: Seq<u8>)
    ensures
        spec_parse_decision(line) matches Ok(Some(d)) ==> d.threshold.wf(),
{
    if spec_parse_decision(line) matches Ok(Some(d)) {
        let i: int = if 2 < line.len() && line[2] == ('+' as u8) {
            3
        } else {
            2
        };
        lemma_num_end_digits(line, i, spec_num_end(line, i));
        lemma_parse_decimal_wf(line, spec_num_end(line, i) + 5);
    }
}

/// A decimal parsed from text satisfies the comparison bounds: the grammar
/// rejects any magnitude reaching ten to the 18 and any scale above 18.
proof fn lemma_parse_decimal_wf(s: Seq<u8>, from: int)
    requires
        from >= 0,
    ensures
        spec_parse_decimal(s, from) matches Ok(t) ==> t.wf(),
{
    proof_pow10_18();
    if spec_parse_decimal(s, from) matches Ok(t) {
        let start = if from < s.len() && (s[from] == ('-' as u8) || s[from] == ('+' as u8)) {
            from + 1
        } else {
            from
        };
        let int_end = spec_num_end(s, start);
        lemma_num_end_digits(s, start, int_end);
        if int_end != start {
            let has_frac = int_end < s.len() && s[int_end] == ('.' as u8);
            let frac_end = if has_frac {
                spec_num_end(s, int_end + 1)
            } else {
                int_end
            };
            if has_frac {
                lemma_num_end_digits(s, int_end + 1, frac_end);
                lemma_digits_val_nonneg(s, int_end + 1, frac_end);
            }
            lemma_digits_val_nonneg(s, start, int_end);
            let frac_digits = if has_frac {
                frac_end - int_end - 1
            } else {
                0
            };
            let int_part = spec_digits_val(s, start, int_end);
            let frac_part: int = if has_frac {
                spec_digits_val(s, int_end + 1, frac_end)
            } else {
                0
            };
            assert(frac_part >= 0);
            if frac_digits >= 0 {
                lemma_pow10_monotonic(0, frac_digits as nat);
                let digits_val = int_part * spec_pow10(frac_digits as nat) + frac_part;
                assert(int_part * spec_pow10(frac_digits as nat) + frac_part >= 0)
                    by (nonlinear_arith)
                    requires
                        int_part >= 0,
                        spec_pow10(frac_digits as nat) >= 1,
                        frac_part >= 0,
                ;
                let has_exp = frac_end < s.len() && (s[frac_end] == ('e' as u8) || s[frac_end]
                    == ('E' as u8));
                let exp_digits = if has_exp && frac_end + 1 < s.len() && (s[frac_end + 1] == (
                '-' as u8) || s[frac_end + 1] == ('+' as u8)) {
                    frac_end + 2
                } else {
                    frac_end + 1
                };
                let exp_end = if has_exp {
                    spec_num_end(s, exp_digits)
                } else {
                    frac_end
                };
                if has_exp {
                    lemma_num_end_digits(s, exp_digits, exp_end);
                    lemma_digits_val_nonneg(s, exp_digits, exp_end);
                }
                let exp_neg = has_exp && frac_end + 1 < s.len() && s[frac_end + 1] == ('-' as u8);
                let exp = if !has_exp {
                    0
                } else if exp_neg {
                    -spec_digits_val(s, exp_digits, exp_end)
                } else {
                    spec_digits_val(s, exp_digits, exp_end)
                };
                let shift = exp - frac_digits;
                if shift >= 0 {
                    lemma_pow10_monotonic(0, shift as nat);
                    assert(digits_val * spec_pow10(shift as nat) >= 0) by (nonlinear_arith)
                        requires
                            digits_val >= 0,
                            spec_pow10(shift as nat) >= 1,
                    ;
                }
            }
        }
    }
}

/// Classify every parsed node by its role -- a leaf iff it has no outgoing
/// edge -- and extract its prediction or decision from the label.
pub open spec fn spec_classify(
    nodes: Seq<(u32, Seq<u8>)>,
    edges: Seq<Edge>,
    i: int,
    preds: Seq<(u32, Prediction)>,
    decs: Seq<(u32, Decision)>,
) -> Result<(Seq<(u32, Prediction)>, Seq<(u32, Decision)>), ParseError>
    decreases nodes.len() - i,
{
    if i < 0 || i >= nodes.len() {
        Ok((preds, decs))
    } else {
        let (id, label) = nodes[i];
        let lines = spec_lines(label, 0);
        if spec_out_targets(edges, id).len() == 0 {
            match spec_scan_prediction(lines, 0, id) {
                Err(e) => Err(e),
                Ok(p) => spec_classify(nodes, edges, i + 1, preds.push((id, p)), decs),
            }
        } else {
            match spec_scan_decision(lines, 0, id) {
                Err(e) => Err(e),
                Ok(d) => spec_classify(nodes, edges, i + 1, preds, decs.push((id, d))),
            }
        }
    }
}

/// The targets of a node's outgoing edges, in source order: the first is the
/// `<=` branch, the second the `>` branch.
pub open spec fn spec_out_targets(edges: Seq<Edge>, id: u32) -> Seq<u32>
    decreases edges.len(),
{
    if edges.len() == 0 {
        Seq::<u32>::empty()
    } else {
        (if edges[0].origin == id {
            seq![edges[0].target]
        } else {
            Seq::<u32>::empty()
        }) + spec_out_targets(edges.skip(1), id)
    }
}

/// Collect a node's outgoing-edge targets, executable.
pub fn out_targets(edges: &Vec<Edge>, id: u32) -> (r: Vec<u32>)
    ensures
        r@ == spec_out_targets(edges@, id),
{
    let mut r: Vec<u32> = Vec::new();
    let mut i: usize = 0;
    proof {
        assert(edges@.skip(0) =~= edges@);
        assert(Seq::<u32>::empty() + spec_out_targets(edges@, id) =~= spec_out_targets(
            edges@,
            id,
        ));
    }
    while i < edges.len()
        invariant
            i <= edges@.len(),
            spec_out_targets(edges@, id) == r@ + spec_out_targets(edges@.skip(i as int), id),
        decreases edges@.len() - i,
    {
        let ghost pre = r@;
        if edges[i].origin == id {
            r.push(edges[i].target);
        }
        proof {
            assert(edges@.skip(i as int).skip(1) =~= edges@.skip(i as int + 1));
            if edges@[i as int].origin == id {
                assert(r@ + spec_out_targets(edges@.skip(i as int + 1), id) =~= pre + (seq![
                    edges@[i as int].target,
                ] + spec_out_targets(edges@.skip(i as int + 1), id)));
            }
        }
        i += 1;
    }
    proof {
        assert(edges@.skip(edges@.len() as int) =~= Seq::<Edge>::empty());
        assert(r@ + Seq::<u32>::empty() =~= r@);
    }
    r
}

/// Classify the parsed nodes, executable; yields the prediction and decision
/// tables keyed by node id.
pub fn classify_nodes(
    nodes: &Vec<(u32, Vec<u8>)>,
    edges: &Vec<Edge>,
    i: usize,
    preds: Vec<(u32, Prediction)>,
    decs: Vec<(u32, Decision)>,
) -> (r: Result<(Vec<(u32, Prediction)>, Vec<(u32, Decision)>), ParseError>)
    requires
        i <= nodes@.len(),
        forall|q: int| 0 <= q < decs@.len() ==> (#[trigger] decs@[q].1).threshold.wf(),
    ensures
        r matches Ok((p, d)) ==> spec_classify(lift_nodes(nodes@), edges@, i as int, preds@, decs@)
            == Ok::<(Seq<(u32, Prediction)>, Seq<(u32, Decision)>), ParseError>((p@, d@))
            && forall|q: int| 0 <= q < d@.len() ==> (#[trigger] d@[q].1).threshold.wf(),
        r matches Err(e) ==> spec_classify(lift_nodes(nodes@), edges@, i as int, preds@, decs@)
            == Err::<(Seq<(u32, Prediction)>, Seq<(u32, Decision)>), ParseError>(e),
    decreases nodes@.len() - i,
{
    if i >= nodes.len() {
        return Ok((preds, decs));
    }
    let id = nodes[i].0;
    let lines = split_lines(nodes[i].1.as_slice(), 0);
    let out = out_targets(edges, id);
    if out.len() == 0 {
        match scan_prediction(&lines, 0, id) {
            Err(e) => Err(e),
            Ok(p) => {
                let mut new_preds = preds;
                new_preds.push((id, p));
                classify_nodes(nodes, edges, i + 1, new_preds, decs)
            },
        }
    } else {
        match scan_decision(&lines, 0, id) {
            Err(e) => Err(e),
            Ok(d) => {
                let mut new_decs = decs;
                new_decs.push((id, d));
                classify_nodes(nodes, edges, i + 1, preds, new_decs)
            },
        }
    }
}

/// The first prediction recorded for a node id.
pub open spec fn spec_find_prediction(preds: Seq<(u32, Prediction)>, id: u32) -> Option<Prediction>
    decreases preds.len(),
{
    if preds.len() == 0 {
        None
    } else if preds[0].0 == id {
        Some(preds[0].1)
    } else {
        spec_find_prediction(preds.skip(1), id)
    }
}

/// The first decision recorded for a node id.
pub open spec fn spec_find_decision(decs: Seq<(u32, Decision)>, id: u32) -> Option<Decision>
    decreases decs.len(),
{
    if decs.len() == 0 {
        None
    } else if decs[0].0 == id {
        Some(decs[0].1)
    } else {
        spec_find_decision(decs.skip(1), id)
    }
}

/// Look a node id up in the prediction table.
pub fn find_prediction(preds: &Vec<(u32, Prediction)>, id: u32) -> (r: Option<Prediction>)
    ensures
        r == spec_find_prediction(preds@, id),
{
    let mut i: usize = 0;
    proof {
        assert(preds@.skip(0) =~= preds@);
    }
    while i < preds.len()
        invariant
            i <= preds@.len(),
            spec_find_prediction(preds@, id) == spec_find_prediction(preds@.skip(i as int), id),
        decreases preds@.len() - i,
    {
        proof {
            assert(preds@.skip(i as int).skip(1) =~= preds@.skip(i as int + 1));
        }
        if preds[i].0 == id {
            return Some(preds[i].1);
        }
        i += 1;
    }
    proof {
        assert(preds@.skip(preds@.len() as int) =~= Seq::<(u32, Prediction)>::empty());
    }
    None
}

/// Look a node id up in the decision table.
pub fn find_decision(decs: &Vec<(u32, Decision)>, id: u32) -> (r: Option<Decision>)
    ensures
        r == spec_find_decision(decs@, id),
{
    let mut i: usize = 0;
    proof {
        assert(decs@.skip(0) =~= decs@);
    }
    while i < decs.len()
        invariant
            i <= decs@.len(),
            spec_find_decision(decs@, id) == spec_find_decision(decs@.skip(i as int), id),
        decreases decs@.len() - i,
    {
        proof {
            assert(decs@.skip(i as int).skip(1) =~= decs@.skip(i as int + 1));
        }
        if decs[i].0 == id {
            return Some(decs[i].1);
        }
        i += 1;
    }
    proof {
        assert(decs@.skip(decs@.len() as int) =~= Seq::<(u32, Decision)>::empty());
    }
    None
}

/// Rebuild the owned tree from the tables: a prediction id resolves to a
/// leaf, a decision id to a node with exactly two outgoing edges whose first
/// target is the `<=` child; an id in neither table is a dangling reference,
/// and a chain longer than the fuel cannot be a tree.
pub open spec fn spec_build_tree(
    preds: Seq<(u32, Prediction)>,
    decs: Seq<(u32, Decision)>,
    edges: Seq<Edge>,
    id: u32,
    fuel: nat,
) -> Result<DecisionNode, ParseError>
    decreases fuel,
{
    match spec_find_prediction(preds, id) {
        Some(p) => Ok(DecisionNode::Prediction(p)),
        None => match spec_find_decision(decs, id) {
            Some(d) => {
                let out = spec_out_targets(edges, id);
                if out.len() != 2 {
                    Err(ParseError::WrongEdgeCount { node_id: id })
                } else if fuel == 0 {
                    Err(ParseError::CyclicGraph)
                } else {
                    match spec_build_tree(preds, decs, edges, out[0], (fuel - 1) as nat) {
                        Err(e) => Err(e),
                        Ok(le) => match spec_build_tree(
                            preds,
                            decs,
                            edges,
                            out[1],
                            (fuel - 1) as nat,
                        ) {
                            Err(e) => Err(e),
                            Ok(gt) => Ok(
                                DecisionNode::Decision {
                                    decision: d,
                                    le_child: Box::new(le),
                                    gt_child: Box::new(gt),
                                },
                            ),
                        },
                    }
                }
            },
            None => Err(ParseError::MissingNode { node_id: id }),
        },
    }
}

/// Rebuild the owned tree, executable.
pub fn build_tree(
    preds: &Vec<(u32, Prediction)>,
    decs: &Vec<(u32, Decision)>,
    edges: &Vec<Edge>,
    id: u32,
    fuel: usize,
) -> (r: Result<DecisionNode, ParseError>)
    requires
        forall|q: int| 0 <= q < decs@.len() ==> (#[trigger] decs@[q].1).threshold.wf(),
    ensures
        r == spec_build_tree(preds@, decs@, edges@, id, fuel as nat),
        r matches Ok(n) ==> n.wf() && n.spec_height() <= fuel,
    decreases fuel,
{
    match find_prediction(preds, id) {
        Some(p) => Ok(DecisionNode::Prediction(p)),
        None => match find_decision(decs, id) {
            Some(d) => {
                let out = out_targets(edges, id);
                if out.len() != 2 {
                    return Err(ParseError::WrongEdgeCount { node_id: id });
                }
                if fuel == 0 {
                    return Err(ParseError::CyclicGraph);
                }
                proof {
                    lemma_find_decision_wf(decs@, id);
                }
                match build_tree(preds, decs, edges, out[0], fuel - 1) {
                    Err(e) => Err(e),
                    Ok(le) => match build_tree(preds, decs, edges, out[1], fuel - 1) {
                        Err(e) => Err(e),
                        Ok(gt) => Ok(
                            DecisionNode::Decision {
                                decision: d,
                                le_child: Box::new(le),
                                gt_child: Box::new(gt),
                            },
                        ),
                    },
                }
            },
            None => Err(ParseError::MissingNode { node_id: id }),
        },
    }
}

/// A decision found in a well-formed table is well-formed.
proof fn lemma_find_decision_wf(decs: Seq<(u32, Decision)>, id: u32)
    requires
        forall|q: int| 0 <= q < decs.len() ==> (#[trigger] decs[q].1).threshold.wf(),
    ensures
        spec_find_decision(decs, id) matches Some(d) ==> d.threshold.wf(),
    decreases decs.len(),
{
    if decs.len() > 0 && decs[0].0 != id {
        assert(forall|q: int|
            0 <= q < decs.skip(1).len() ==> (#[trigger] decs.skip(1)[q].1).threshold.wf());
        lemma_find_decision_wf(decs.skip(1), id);
    }
}

/// What parsing a whole graph text yields: the reconstructed tree rooted at
/// node id 0, or the first error.
pub open spec fn spec_parse_tree(s: Seq<u8>) -> Result<DecisionNode, ParseError> {
    match spec_parse_graph(s) {
        Err(e) => Err(e),
        Ok((nodes, edges)) => match spec_classify(
            nodes,
            edges,
            0,
            Seq::<(u32, Prediction)>::empty(),
            Seq::<(u32, Decision)>::empty(),
        ) {
            Err(e) => Err(e),
            Ok((preds, decs)) => if nodes.len() >= usize::MAX {
                Err(ParseError::CyclicGraph)
            } else {
                spec_build_tree(preds, decs, edges, 0, (nodes.len() + 1) as nat)
            },
        },
    }
}

/// A decision tree reconstructed from a graph description.
#[derive(PartialEq, Eq, Debug)]
pub struct DecisionTree {
    pub root: DecisionNode,
}

impl DecisionTree {
    /// Every threshold of the tree is inside the comparison bounds.
    pub open spec fn wf(&self) -> bool {
        self.root.wf()
    }

    /// Parse a graph description into a decision tree: scan the nodes and
    /// edges, classify each node as leaf or decision by its outgoing edges,
    /// extract the label patterns, and rebuild the tree from the root id 0.
    /// Among a decision's two outgoing edges, the first in source order is
    /// the branch taken when the comparison holds.
    pub fn parse(dot: &str) -> (r: Result<DecisionTree, ParseError>)
        ensures
            r matches Ok(t) ==> spec_parse_tree(dot.spec_bytes()) == Ok::<
                DecisionNode,
                ParseError,
            >(t.root) && t.wf(),
            r matches Err(e) ==> spec_parse_tree(dot.spec_bytes()) == Err::<
                DecisionNode,
                ParseError,
            >(e),
    {
        let bytes = dot.as_bytes();
        let graph = match parse_graph(bytes) {
            Err(e) => {
                return Err(e);
            },
            Ok(g) => g,
        };
        let empty_preds: Vec<(u32, Prediction)> = Vec::new();
        let empty_decs: Vec<(u32, Decision)> = Vec::new();
        let (preds, decs) = match classify_nodes(&graph.nodes, &graph.edges, 0, empty_preds,
            empty_decs) {
            Err(e) => {
                return Err(e);
            },
            Ok(t) => t,
        };
        if graph.nodes.len() == usize::MAX {
            // a graph this large cannot be a tree reachable from one root
            return Err(ParseError::CyclicGraph);
        }
        match build_tree(&preds, &decs, &graph.edges, 0, graph.nodes.len() + 1) {
            Err(e) => Err(e),
            Ok(root) => Ok(DecisionTree { root }),
        }
    }

    /// Append the tree's lowered source text.
    pub fn write_wgsl(&self, out: &mut String)
        requires
            self.wf(),
            self.root.spec_height() <= 1_000_000,
        ensures
            final(out)@ == old(out)@ + spec_node_wgsl(self.root, 0),
    {
        self.root.write_wgsl(out, 0);
    }

    /// Walk the tree over a feature vector.
    pub fn decide(&self, features: &Vec<i64>) -> (r: usize)
        requires
            self.wf(),
            self.root.spec_features_lt(features@.len() as int),
        ensures
            r as int == self.root.spec_decide(features@),
    {
        self.root.decide(features)
    }
}


/// The highest feature index a tree references, or -1 for a bare leaf.
pub open spec fn spec_highest_feature(n: DecisionNode) -> int
    decreases n,
{
    match n {
        DecisionNode::Prediction(_) => -1,
        DecisionNode::Decision { decision, le_child, gt_child } => {
            let sub = if spec_highest_feature(*le_child) > spec_highest_feature(*gt_child) {
                spec_highest_feature(*le_child)
            } else {
                spec_highest_feature(*gt_child)
            };
            if decision.feature_idx as int > sub {
                decision.feature_idx as int
            } else {
                sub
            }
        },
    }
}

impl DecisionNode {
    /// The largest class index any leaf predicts.
    pub fn max_class(&self) -> (r: usize)
        ensures
            r == self.spec_max_class(),
        decreases self,
    {
        match self {
            DecisionNode::Prediction(p) => p.class,
            DecisionNode::Decision { decision, le_child, gt_child } => {
                let a = le_child.max_class();
                let b = gt_child.max_class();
                if a > b {
                    a
                } else {
                    b
                }
            },
        }
    }

    /// Whether the tree's height stays within `bound`: an executable check
    /// that discharges the recursion bounds the emitters ask for.
    pub fn height_at_most(&self, bound: usize) -> (r: bool)
        ensures
            r == (self.spec_height() <= bound),
        decreases self,
    {
        match self {
            DecisionNode::Prediction(_) => true,
            DecisionNode::Decision { decision, le_child, gt_child } => bound > 0
                && le_child.height_at_most(bound - 1) && gt_child.height_at_most(bound - 1),
        }
    }

    /// Whether every feature index in the tree is below `k`.
    pub fn check_features_lt(&self, k: usize) -> (r: bool)
        ensures
            r == self.spec_features_lt(k as int),
        decreases self,
    {
        match self {
            DecisionNode::Prediction(_) => true,
            DecisionNode::Decision { decision, le_child, gt_child } => decision.feature_idx < k
                && le_child.check_features_lt(k) && gt_child.check_features_lt(k),
        }
    }

    /// The highest feature index referenced anywhere, `None` for a bare leaf.
    pub fn highest_feature_idx(&self) -> (r: Option<usize>)
        ensures
            r is None ==> spec_highest_feature(*self) == -1,
            r matches Some(h) ==> spec_highest_feature(*self) == h,
        decreases self,
    {
        match self {
            DecisionNode::Prediction(_) => None,
            DecisionNode::Decision { decision, le_child, gt_child } => {
                let mut highest = decision.feature_idx;
                match le_child.highest_feature_idx() {
                    Some(h) => {
                        if h > highest {
                            highest = h;
                        }
                    },
                    None => {},
                }
                match gt_child.highest_feature_idx() {
                    Some(h) => {
                        if h > highest {
                            highest = h;
                        }
                    },
                    None => {},
                }
                Some(highest)
            },
        }
    }
}

/// Bounding every feature index is the same as bounding the highest, for any
/// non-negative bound.
pub proof fn law_features_lt_iff_highest(n: DecisionNode, k: int)
    requires
        k >= 0,
    ensures
        n.spec_features_lt(k) <==> spec_highest_feature(n) < k,
    decreases n,
{
    match n {
        DecisionNode::Prediction(_) => {},
        DecisionNode::Decision { decision, le_child, gt_child } => {
            law_features_lt_iff_highest(*le_child, k);
            law_features_lt_iff_highest(*gt_child, k);
        },
    }
}

/// An additive ensemble of decision trees: each tree's lowered block votes
/// into the same per-class score variables.
pub struct RandomForest {
    pub trees: Vec<DecisionTree>,
}

/// The concatenated lowered source of the first `n` trees, in forest order.
pub open spec fn spec_forest_wgsl(trees: Seq<DecisionTree>, n: int) -> Seq<char>
    decreases n,
{
    if n <= 0 {
        Seq::<char>::empty()
    } else {
        spec_forest_wgsl(trees, n - 1) + spec_node_wgsl(trees[n - 1].root, 0)
    }
}

/// How many of the first `n` trees select class `c` for a feature vector.
pub open spec fn spec_votes(trees: Seq<DecisionTree>, feats: Seq<i64>, c: int, n: int) -> int
    decreases n,
{
    if n <= 0 {
        0
    } else {
        spec_votes(trees, feats, c, n - 1) + if trees[n - 1].root.spec_decide(feats) == c {
            1int
        } else {
            0int
        }
    }
}

impl RandomForest {
    /// Every tree of the forest is well-formed.
    pub open spec fn wf(&self) -> bool {
        forall|q: int| 0 <= q < self.trees@.len() ==> (#[trigger] self.trees@[q]).wf()
    }

    /// Every feature index referenced by any tree is below `k`.
    pub open spec fn spec_features_lt(&self, k: int) -> bool {
        forall|q: int|
            0 <= q < self.trees@.len() ==> (#[trigger] self.trees@[q]).root.spec_features_lt(k)
    }

    /// Whether every feature index of every tree is below `k`.
    pub fn check_features_lt(&self, k: usize) -> (r: bool)
        ensures
            r == self.spec_features_lt(k as int),
    {
        let mut i: usize = 0;
        while i < self.trees.len()
            invariant
                i <= self.trees@.len(),
                forall|q: int|
                    0 <= q < i ==> (#[trigger] self.trees@[q]).root.spec_features_lt(k as int),
            decreases self.trees@.len() - i,
        {
            if !self.trees[i].root.check_features_lt(k) {
                return false;
            }
            i += 1;
        }
        true
    }

    /// Whether every tree's height stays within `bound`.
    pub fn heights_at_most(&self, bound: usize) -> (r: bool)
        ensures
            r == forall|q: int|
                0 <= q < self.trees@.len() ==> (#[trigger] self.trees@[q]).root.spec_height()
                    <= bound,
    {
        let mut i: usize = 0;
        while i < self.trees.len()
            invariant
                i <= self.trees@.len(),
                forall|q: int|
                    0 <= q < i ==> (#[trigger] self.trees@[q]).root.spec_height() <= bound,
            decreases self.trees@.len() - i,
        {
            if !self.trees[i].root.height_at_most(bound) {
                return false;
            }
            i += 1;
        }
        true
    }

    /// The highest feature index any tree references; `None` when every tree
    /// is a bare leaf.
    pub fn highest_feature_idx(&self) -> (r: Option<usize>)
        ensures
            r matches Some(h) ==> exists|q: int|
                0 <= q < self.trees@.len() && spec_highest_feature(
                    #[trigger] self.trees@[q].root,
                ) == h,
            r matches Some(h) ==> forall|q: int|
                0 <= q < self.trees@.len() ==> spec_highest_feature(
                    #[trigger] self.trees@[q].root,
                ) <= h,
            r is None ==> forall|q: int|
                0 <= q < self.trees@.len() ==> spec_highest_feature(
                    #[trigger] self.trees@[q].root,
                ) == -1,
    {
        let mut best: Option<usize> = None;
        let mut i: usize = 0;
        while i < self.trees.len()
            invariant
                i <= self.trees@.len(),
                best matches Some(h) ==> exists|q: int|
                    0 <= q < i && spec_highest_feature(#[trigger] self.trees@[q].root) == h,
                best matches Some(h) ==> forall|q: int|
                    0 <= q < i ==> spec_highest_feature(#[trigger] self.trees@[q].root) <= h,
                best is None ==> forall|q: int|
                    0 <= q < i ==> spec_highest_feature(#[trigger] self.trees@[q].root) == -1,
            decreases self.trees@.len() - i,
        {
            match self.trees[i].root.highest_feature_idx() {
                Some(h) => {
                    match best {
                        Some(b) => {
                            if h > b {
                                best = Some(h);
                            }
                        },
                        None => {
                            best = Some(h);
                        },
                    }
                },
                None => {},
            }
            i += 1;
        }
        best
    }

    /// Append every tree's lowered block, in forest order; all blocks vote
    /// into the same class score variables.
    pub fn write_wgsl(&self, out: &mut String)
        requires
            self.wf(),
            forall|q: int|
                0 <= q < self.trees@.len() ==> (#[trigger] self.trees@[q]).root.spec_height()
                    <= 1_000_000,
        ensures
            final(out)@ == old(out)@ + spec_forest_wgsl(self.trees@, self.trees@.len() as int),
    {
        let mut i: usize = 0;
        proof {
            assert(out@ =~= old(out)@ + spec_forest_wgsl(self.trees@, 0));
        }
        while i < self.trees.len()
            invariant
                i <= self.trees@.len(),
                self.wf(),
                forall|q: int|
                    0 <= q < self.trees@.len() ==> (#[trigger] self.trees@[q]).root.spec_height()
                        <= 1_000_000,
                out@ == old(out)@ + spec_forest_wgsl(self.trees@, i as int),
            decreases self.trees@.len() - i,
        {
            self.trees[i].write_wgsl(out);
            i += 1;
        }
    }

    /// The two-class vote: class 0 wins exactly when it gathers strictly
    /// more votes than class 1, mirroring the emitted final-decision code.
    pub fn classify(&self, features: &Vec<i64>) -> (r: usize)
        requires
            self.wf(),
            self.spec_features_lt(features@.len() as int),
        ensures
            r == (if spec_votes(self.trees@, features@, 0, self.trees@.len() as int) > spec_votes(
                self.trees@,
                features@,
                1,
                self.trees@.len() as int,
            ) {
                0int
            } else {
                1int
            }),
    {
        let mut votes0: usize = 0;
        let mut votes1: usize = 0;
        let mut i: usize = 0;
        while i < self.trees.len()
            invariant
                i <= self.trees@.len(),
                self.wf(),
                self.spec_features_lt(features@.len() as int),
                votes0 == spec_votes(self.trees@, features@, 0, i as int),
                votes1 == spec_votes(self.trees@, features@, 1, i as int),
                votes0 <= i,
                votes1 <= i,
            decreases self.trees@.len() - i,
        {
            let class = self.trees[i].decide(features);
            if class == 0 {
                votes0 += 1;
            } else if class == 1 {
                votes1 += 1;
            }
            i += 1;
        }
        if votes0 > votes1 {
            0
        } else {
            1
        }
    }
}

} // verus!
