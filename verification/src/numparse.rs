//! Verified parsing of the numeric argument values: signed integers, and
//! decimal quality values carried as hundredths of a point.

use vstd::prelude::*;

verus! {

/// An ASCII decimal digit.
pub open spec fn is_digit(c: char) -> bool {
    48 <= c as int <= 57
}

/// The numeric value of an ASCII digit.
pub open spec fn digit_val(c: char) -> int {
    c as int - 48
}

/// Every character of `s` is an ASCII decimal digit.
pub open spec fn all_digits(s: Seq<char>) -> bool {
    forall|i: int| 0 <= i < s.len() ==> is_digit(#[trigger] s[i])
}

/// The base-ten value of a digit string, most significant digit first.
pub open spec fn digits_val(s: Seq<char>) -> int
    decreases s.len(),
{
    if s.len() == 0 {
        0
    } else {
        digits_val(s.drop_last()) * 10 + digit_val(s.last())
    }
}

/// Ten to the power `n`.
pub open spec fn pow10(n: nat) -> int
    decreases n,
{
    if n == 0 {
        1
    } else {
        10 * pow10((n - 1) as nat)
    }
}

/// A string of `'0'` characters has value zero.
pub proof fn lemma_digits_val_all_zero(s: Seq<char>)
    requires
        forall|i: int| 0 <= i < s.len() ==> #[trigger] s[i] == '0',
    ensures
        digits_val(s) == 0,
    decreases s.len(),
{
    if s.len() > 0 {
        lemma_digits_val_all_zero(s.drop_last());
    }
}

/// Leading zeros do not change a digit string's value.
pub proof fn lemma_digits_val_skip_zeros(s: Seq<char>, k: int)
    requires
        0 <= k <= s.len(),
        forall|i: int| 0 <= i < k ==> #[trigger] s[i] == '0',
    ensures
        digits_val(s) == digits_val(s.subrange(k, s.len() as int)),
    decreases s.len(),
{
    if s.len() == k {
        lemma_digits_val_all_zero(s);
        assert(s.subrange(k, s.len() as int) =~= Seq::<char>::empty());
    } else {
        lemma_digits_val_skip_zeros(s.drop_last(), k);
        assert(s.drop_last().subrange(k, s.drop_last().len() as int) =~= s.subrange(
            k,
            s.len() as int,
        ).drop_last());
        assert(s.subrange(k, s.len() as int).last() == s.last());
    }
}

/// A digit string whose first digit is not `'0'` is at least
/// `pow10(len - 1)`.
pub proof fn lemma_digits_val_lower(s: Seq<char>)
    requires
        all_digits(s),
        s.len() > 0,
        s[0] != '0',
    ensures
        digits_val(s) >= pow10((s.len() - 1) as nat),
    decreases s.len(),
{
    assert(digits_val(s) == digits_val(s.drop_last()) * 10 + digit_val(s.last()));
    if s.len() == 1 {
        assert(s.drop_last().len() == 0);
        assert(digits_val(s.drop_last()) == 0);
        assert(s.last() == s[0]);
        assert(digit_val(s[0]) >= 1);
        assert(pow10(0) == 1);
    } else {
        assert(all_digits(s.drop_last()));
        assert(s.drop_last()[0] == s[0]);
        lemma_digits_val_lower(s.drop_last());
        assert(0 <= digit_val(s.last()));
        assert(pow10((s.len() - 1) as nat) == 10 * pow10((s.len() - 2) as nat));
        assert(digits_val(s.drop_last()) * 10 >= pow10((s.len() - 2) as nat) * 10);
    }
}

/// The sign-stripped body of a numeric token.
pub open spec fn num_body(s: Seq<char>) -> Seq<char> {
    if s.len() > 0 && (s[0] == '+' || s[0] == '-') {
        s.subrange(1, s.len() as int)
    } else {
        s
    }
}

/// The token carries a leading minus sign.
pub open spec fn num_neg(s: Seq<char>) -> bool {
    s.len() > 0 && s[0] == '-'
}

/// An optionally signed, non-empty run of digits.
pub open spec fn is_int_token(s: Seq<char>) -> bool {
    num_body(s).len() > 0 && all_digits(num_body(s))
}

/// The signed value of an integer token.
pub open spec fn int_token_val(s: Seq<char>) -> int {
    if num_neg(s) {
        -digits_val(num_body(s))
    } else {
        digits_val(num_body(s))
    }
}

/// What integer a command-line value denotes: its value when it is a
/// well-formed integer that fits an `i32`, the given default otherwise.
pub open spec fn spec_parse_i32_or(s: Seq<char>, default: i32) -> i32 {
    if is_int_token(s) && i32::MIN <= int_token_val(s) <= i32::MAX {
        int_token_val(s) as i32
    } else {
        default
    }
}

/// Parses a signed decimal integer, falling back to `default` on any
/// malformed or out-of-range input.
#[verifier::loop_isolation(false)]
#[verifier::rlimit(60)]
pub fn parse_i32_or(s: &str, default: i32) -> (r: i32)
    ensures
        r == spec_parse_i32_or(s@, default),
{
    let n: usize = s.unicode_len();
    if n == 0 {
        return default;
    }
    let c0: char = s.get_char(0);
    let neg: bool = c0 == '-';
    let start: usize = if c0 == '-' || c0 == '+' {
        1
    } else {
        0
    };
    if start >= n {
        return default;
    }
    let ghost body = num_body(s@);
    assert(body =~= s@.subrange(start as int, n as int));
    let mut i: usize = start;
    while i < n && s.get_char(i) == '0'
        invariant
            start <= i <= n,
            forall|j: int| start <= j < i ==> s@[j] == '0',
        decreases n - i,
    {
        i = i + 1;
    }
    if n - i > 10 {
        proof {
            if is_int_token(s@) {
                let sig = s@.subrange(i as int, n as int);
                assert(sig =~= body.subrange(i - start, body.len() as int));
                assert(all_digits(sig));
                assert(sig[0] == s@[i as int]);
                lemma_digits_val_lower(sig);
                assert(pow10(10) == 10000000000) by {
                    reveal_with_fuel(pow10, 11);
                };
                assert(pow10((sig.len() - 1) as nat) >= pow10(10)) by {
                    lemma_pow10_mono(10, (sig.len() - 1) as nat);
                };
                lemma_digits_val_skip_zeros(body, i - start);
                assert(int_token_val(s@) > i32::MAX || int_token_val(s@) < i32::MIN);
            }
        }
        return default;
    }
    let mut acc: u64 = 0;
    let mut j: usize = i;
    proof {
        assert(s@.subrange(i as int, i as int) =~= Seq::<char>::empty());
    }
    while j < n
        invariant
            i <= j <= n,
            acc == digits_val(s@.subrange(i as int, j as int)),
            all_digits(s@.subrange(i as int, j as int)),
            acc < pow10((j - i) as nat),
        decreases n - j,
    {
        let c: char = s.get_char(j);
        let d: u32 = c as u32;
        if d < 48 || d > 57 {
            proof {
                assert(body[j - start] == s@[j as int]);
                assert(!is_digit(s@[j as int]));
            }
            return default;
        }
        proof {
            assert(pow10((j - i) as nat) <= pow10(9)) by {
                lemma_pow10_mono((j - i) as nat, 9);
            };
            assert(pow10(9) == 1000000000) by {
                reveal_with_fuel(pow10, 10);
            };
            let sub1 = s@.subrange(i as int, j + 1);
            assert(sub1.drop_last() =~= s@.subrange(i as int, j as int));
            assert(sub1.last() == s@[j as int]);
        }
        acc = acc * 10 + (d - 48) as u64;
        j = j + 1;
    }
    proof {
        let sig = s@.subrange(i as int, n as int);
        assert forall|k: int| 0 <= k < body.len() implies is_digit(#[trigger] body[k]) by {
            let j = start + k;
            assert(body[k] == s@[j]);
            if j < i {
                assert(s@[j] == '0');
            } else {
                assert(sig[j - i] == s@[j]);
                assert(is_digit(sig[j - i]));
            }
        };
        assert(is_int_token(s@));
        lemma_digits_val_skip_zeros(body, i - start);
        assert(sig =~= body.subrange(i - start, body.len() as int));
        assert(digits_val(body) == acc);
    }
    if neg {
        if acc <= 2147483648u64 {
            let v: i64 = -(acc as i64);
            proof {
                assert(int_token_val(s@) == v as int);
            }
            return v as i32;
        }
        return default;
    }
    if acc <= 2147483647u64 {
        return acc as i32;
    }
    default
}

/// The index of the first `'.'` in `s` at or after `i`, or `s.len()`.
pub open spec fn first_dot(s: Seq<char>, i: int) -> int
    decreases s.len() - i when 0 <= i <= s.len()
{
    if i >= s.len() {
        s.len() as int
    } else if s[i] == '.' {
        i
    } else {
        first_dot(s, i + 1)
    }
}

/// `first_dot` finds exactly the first dot position.
proof fn lemma_first_dot(s: Seq<char>, i: int, d: int)
    requires
        0 <= i <= d <= s.len(),
        forall|j: int| i <= j < d ==> #[trigger] s[j] != '.',
        d < s.len() ==> s[d] == '.',
    ensures
        first_dot(s, i) == d,
    decreases d - i,
{
    if i < d {
        lemma_first_dot(s, i + 1, d);
    }
}

/// The digits before the first dot of the sign-stripped body.
pub open spec fn dec_int_part(s: Seq<char>) -> Seq<char> {
    num_body(s).subrange(0, first_dot(num_body(s), 0))
}

/// The digits after the first dot of the sign-stripped body.
pub open spec fn dec_frac_part(s: Seq<char>) -> Seq<char> {
    let b = num_body(s);
    let d = first_dot(b, 0);
    if d < b.len() {
        b.subrange(d + 1, b.len() as int)
    } else {
        Seq::<char>::empty()
    }
}

/// An optionally signed decimal with at least one digit: digits, an
/// optional dot, and further digits.
pub open spec fn is_dec_token(s: Seq<char>) -> bool {
    &&& all_digits(dec_int_part(s))
    &&& all_digits(dec_frac_part(s))
    &&& dec_int_part(s).len() + dec_frac_part(s).len() >= 1
}

/// The value of the fractional digits in hundredths, truncated after two
/// digits.
pub open spec fn frac_centi(fp: Seq<char>) -> int {
    (if fp.len() >= 1 {
        digit_val(fp[0]) * 10
    } else {
        0
    }) + (if fp.len() >= 2 {
        digit_val(fp[1])
    } else {
        0
    })
}

/// The magnitude of a decimal token in hundredths. Values whose integer
/// part exceeds 20000 saturate to 2000000 (far outside the valid quality
/// range, so they are rejected downstream exactly like any other
/// out-of-range quality).
pub open spec fn dec_centi_mag(s: Seq<char>) -> int {
    if digits_val(dec_int_part(s)) > 20000 {
        2000000
    } else {
        digits_val(dec_int_part(s)) * 100 + frac_centi(dec_frac_part(s))
    }
}

/// What quality a command-line value denotes, in hundredths of a point:
/// its (possibly signed) decimal value when well formed, the default
/// otherwise.
pub open spec fn spec_parse_centi_or(s: Seq<char>, default: i32) -> i32 {
    if is_dec_token(s) {
        if num_neg(s) {
            (-dec_centi_mag(s)) as i32
        } else {
            dec_centi_mag(s) as i32
        }
    } else {
        default
    }
}

/// Decides whether every character of `s` in `[lo, hi)` is a digit.
#[verifier::loop_isolation(false)]
fn check_digits(s: &str, lo: usize, hi: usize) -> (ok: bool)
    requires
        lo <= hi <= s@.len(),
    ensures
        ok == all_digits(s@.subrange(lo as int, hi as int)),
{
    let mut k: usize = lo;
    while k < hi
        invariant
            lo <= k <= hi,
            forall|j: int| lo <= j < k ==> is_digit(#[trigger] s@[j]),
        decreases hi - k,
    {
        let d32: u32 = s.get_char(k) as u32;
        if d32 < 48 || d32 > 57 {
            proof {
                assert(s@.subrange(lo as int, hi as int)[k - lo] == s@[k as int]);
            }
            return false;
        }
        k = k + 1;
    }
    proof {
        assert forall|j: int| 0 <= j < hi - lo implies is_digit(
            #[trigger] s@.subrange(lo as int, hi as int)[j],
        ) by {
            assert(s@.subrange(lo as int, hi as int)[j] == s@[lo + j]);
        };
    }
    true
}

/// The first index in `[lo, hi)` whose character is not `'0'`, or `hi`.
#[verifier::loop_isolation(false)]
fn skip_zeros(s: &str, lo: usize, hi: usize) -> (z: usize)
    requires
        lo <= hi <= s@.len(),
    ensures
        lo <= z <= hi,
        forall|j: int| lo <= j < z ==> #[trigger] s@[j] == '0',
        z < hi ==> s@[z as int] != '0',
    decreases hi - lo,
{
    let mut z: usize = lo;
    while z < hi && s.get_char(z) == '0'
        invariant
            lo <= z <= hi,
            forall|j: int| lo <= j < z ==> #[trigger] s@[j] == '0',
        decreases hi - z,
    {
        z = z + 1;
    }
    z
}

/// The value of the digit run `s[z..dp)`, at most five digits long.
#[verifier::loop_isolation(false)]
fn digit_run_val(s: &str, z: usize, dp: usize) -> (acc: u64)
    requires
        z <= dp <= s@.len(),
        dp - z <= 5,
        all_digits(s@.subrange(z as int, dp as int)),
    ensures
        acc == digits_val(s@.subrange(z as int, dp as int)),
        acc < 100000,
{
    proof {
        assert(s@.subrange(z as int, z as int) =~= Seq::<char>::empty());
    }
    let mut acc: u64 = 0;
    let mut q: usize = z;
    while q < dp
        invariant
            z <= q <= dp,
            acc == digits_val(s@.subrange(z as int, q as int)),
            acc < pow10((q - z) as nat),
        decreases dp - q,
    {
        let c: char = s.get_char(q);
        proof {
            assert(s@.subrange(z as int, dp as int)[q - z] == s@[q as int]);
            assert(is_digit(s@[q as int]));
            assert(pow10((q - z) as nat) <= pow10(4)) by {
                lemma_pow10_mono((q - z) as nat, 4);
            };
            assert(pow10(4) == 10000) by {
                reveal_with_fuel(pow10, 5);
            };
            let sub1 = s@.subrange(z as int, q + 1);
            assert(sub1.drop_last() =~= s@.subrange(z as int, q as int));
            assert(sub1.last() == s@[q as int]);
        }
        acc = acc * 10 + (c as u32 - 48) as u64;
        q = q + 1;
    }
    proof {
        assert(pow10(5) == 100000) by {
            reveal_with_fuel(pow10, 6);
        };
        lemma_pow10_mono((dp - z) as nat, 5);
    }
    acc
}

/// Parses a decimal quality value into hundredths of a point, falling
/// back to `default` on malformed input.
#[verifier::loop_isolation(false)]
#[verifier::rlimit(100)]
#[verifier::spinoff_prover]
pub fn parse_centi_or(s: &str, default: i32) -> (r: i32)
    ensures
        r == spec_parse_centi_or(s@, default),
{
    let n: usize = s.unicode_len();
    if n == 0 {
        return default;
    }
    let c0: char = s.get_char(0);
    let neg: bool = c0 == '-';
    let start: usize = if c0 == '-' || c0 == '+' {
        1
    } else {
        0
    };
    let ghost body = num_body(s@);
    proof {
        assert(body =~= s@.subrange(start as int, n as int));
    }
    let mut dp: usize = start;
    while dp < n && s.get_char(dp) != '.'
        invariant
            start <= dp <= n,
            forall|j: int| start <= j < dp ==> #[trigger] s@[j] != '.',
        decreases n - dp,
    {
        dp = dp + 1;
    }
    proof {
        lemma_first_dot(body, 0, dp - start);
    }
    let ghost ip = dec_int_part(s@);
    let ghost fp = dec_frac_part(s@);
    proof {
        assert(ip =~= s@.subrange(start as int, dp as int));
        if dp < n {
            assert(fp =~= s@.subrange(dp + 1, n as int));
        }
    }
    if !check_digits(s, start, dp) {
        return default;
    }
    let fstart: usize = if dp < n {
        dp + 1
    } else {
        n
    };
    if !check_digits(s, fstart, n) {
        proof {
            assert(fp =~= s@.subrange(fstart as int, n as int));
        }
        return default;
    }
    if dp - start == 0 && fstart >= n {
        return default;
    }
    proof {
        assert(all_digits(ip));
        assert(fp =~= s@.subrange(fstart as int, n as int));
        assert(all_digits(fp));
        assert(is_dec_token(s@));
    }
    let z: usize = skip_zeros(s, start, dp);
    proof {
        lemma_digits_val_skip_zeros(ip, z - start);
        assert(s@.subrange(z as int, dp as int) =~= ip.subrange(z - start, ip.len() as int));
    }
    let mag: i64 = if dp - z > 5 {
        proof {
            let sig = s@.subrange(z as int, dp as int);
            assert(sig[0] == s@[z as int]);
            assert(is_digit(sig[0]));
            lemma_digits_val_lower(sig);
            assert(pow10(5) == 100000) by {
                reveal_with_fuel(pow10, 6);
            };
            lemma_pow10_mono(5, (sig.len() - 1) as nat);
        }
        2000000
    } else {
        let acc: u64 = digit_run_val(s, z, dp);
        proof {
            assert(digits_val(ip) == acc);
        }
        if acc > 20000 {
            2000000
        } else {
            let f1: u32 = if n - dp >= 2 {
                proof {
                    assert(fp[0] == s@[dp + 1]);
                    assert(is_digit(s@[dp + 1]));
                }
                s.get_char(dp + 1) as u32 - 48
            } else {
                0
            };
            let f2: u32 = if n - dp >= 3 {
                proof {
                    assert(fp[1] == s@[dp + 2]);
                    assert(is_digit(s@[dp + 2]));
                }
                s.get_char(dp + 2) as u32 - 48
            } else {
                0
            };
            (acc as i64) * 100 + (f1 * 10 + f2) as i64
        }
    };
    proof {
        assert(0 <= mag <= 2000099);
        assert(mag == dec_centi_mag(s@));
    }
    if neg {
        let v: i64 = -mag;
        v as i32
    } else {
        mag as i32
    }
}

/// `pow10` is monotone in its exponent.
pub proof fn lemma_pow10_mono(a: nat, b: nat)
    requires
        a <= b,
    ensures
        pow10(a) <= pow10(b),
    decreases b,
{
    if a < b {
        lemma_pow10_mono(a, (b - 1) as nat);
        assert(pow10((b - 1) as nat) >= 1) by {
            lemma_pow10_pos((b - 1) as nat);
        };
    }
}

/// `pow10` is positive.
pub proof fn lemma_pow10_pos(n: nat)
    ensures
        pow10(n) >= 1,
    decreases n,
{
    if n > 0 {
        lemma_pow10_pos((n - 1) as nat);
    }
}

} // verus!
