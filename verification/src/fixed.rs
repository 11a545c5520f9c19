use vstd::prelude::*;

use vstd::arithmetic::div_mod::{lemma_div_is_ordered, lemma_fundamental_div_mod, lemma_mod_bound};
use vstd::math::abs;

verus! {

/// Powers of ten.
pub open spec fn pow10(k: nat) -> nat
    decreases k,
{
    if k == 0 {
        1
    } else {
        10 * pow10((k - 1) as nat)
    }
}

/// Executable power of ten.
pub fn pow10_u64(k: u64) -> (r: u64)
    requires
        k <= 19,
    ensures
        r == pow10(k as nat),
{
    proof {
        lemma_pow10_19();
        lemma_pow10_monotone(k as nat, 19);
    }
    let mut r: u64 = 1;
    let mut i: u64 = 0;
    while i < k
        invariant
            i <= k <= 19,
            r == pow10(i as nat),
        decreases k - i,
    {
        proof {
            lemma_pow10_19();
            lemma_pow10_monotone((i + 1) as nat, 19);
        }
        r = r * 10;
        i = i + 1;
    }
    r
}

/// The concrete value of the largest power of ten a `u64` holds.
proof fn lemma_pow10_19()
    ensures
        pow10(19) == 10_000_000_000_000_000_000,
{
    assert(pow10(19) == 10_000_000_000_000_000_000) by {
        reveal_with_fuel(pow10, 21);
    }
}

/// Powers of ten grow with the exponent.
pub proof fn lemma_pow10_monotone(i: nat, j: nat)
    requires
        i <= j,
    ensures
        pow10(i) <= pow10(j),
        pow10(i) >= 1,
    decreases j,
{
    if i < j {
        lemma_pow10_monotone(i, (j - 1) as nat);
    } else if j > 0 {
        lemma_pow10_monotone((i - 1) as nat, (j - 1) as nat);
    }
}

/// An exact decimal value: `mantissa / 10^frac_digits`, negated when
/// `negative` is set. Two fixed-point scales are in use (`10^4` and `10^5`)
/// by different operation families; a `Decimal` itself is scale-free.
#[derive(Debug, Clone, Copy, PartialEq, Eq, Structural)]
pub struct Decimal {
    pub negative: bool,
    pub mantissa: u64,
    pub frac_digits: u64,
}

impl Decimal {
    /// Well-formed decimals keep their denominator within a `u64`.
    pub open spec fn wf(&self) -> bool {
        self.frac_digits <= 18
    }

    /// The denominator `10^frac_digits`.
    pub open spec fn spec_den(&self) -> int {
        pow10(self.frac_digits as nat) as int
    }

    /// The signed numerator over `spec_den`.
    pub open spec fn spec_numer(&self) -> int {
        if self.negative {
            -(self.mantissa as int)
        } else {
            self.mantissa as int
        }
    }
}

/// A scale accepted by the codec: ten thousand or one hundred thousand.
pub open spec fn valid_scale(scale: u64) -> bool {
    scale == 10_000 || scale == 100_000
}

/// The rounded magnitude of `d * scale`: nearest integer, ties upward in
/// magnitude (and so away from zero once the sign is applied).
pub open spec fn spec_round_mag(d: Decimal, scale: u64) -> int {
    (d.mantissa * scale + d.spec_den() / 2) / d.spec_den()
}

/// `to_fixed` as a mathematical function.
pub open spec fn spec_to_fixed(d: Decimal, scale: u64) -> int {
    if d.negative {
        -spec_round_mag(d, scale)
    } else {
        spec_round_mag(d, scale)
    }
}

/// Converts a decimal to its fixed-point representation at `scale`,
/// rounding `d * scale` to the nearest integer with ties away from zero.
pub fn to_fixed(d: &Decimal, scale: u64) -> (r: i64)
    requires
        d.wf(),
        valid_scale(scale),
        spec_round_mag(*d, scale) <= i64::MAX,
    ensures
        r as int == spec_to_fixed(*d, scale),
{
    let den = pow10_u64(d.frac_digits);
    proof {
        lemma_pow10_monotone(0, d.frac_digits as nat);
        lemma_div_is_ordered(0, d.mantissa as int * scale as int + den as int / 2, den as int);
    }
    let num: u128 = d.mantissa as u128 * scale as u128 + (den / 2) as u128;
    let q: u128 = num / (den as u128);
    let mag = q as u64;
    if d.negative {
        -(mag as i64)
    } else {
        mag as i64
    }
}

/// Reads a fixed-point value back as the exact decimal `fixed / scale`.
pub fn from_fixed(fixed: i64, scale: u64) -> (r: Decimal)
    requires
        valid_scale(scale),
    ensures
        r.wf(),
        r.negative == (fixed < 0),
        r.mantissa == abs(fixed as int),
        r.spec_den() == scale,
{
    let frac_digits: u64 = if scale == 10_000 {
        4
    } else {
        5
    };
    proof {
        assert(pow10(4) == 10_000 && pow10(5) == 100_000) by {
            reveal_with_fuel(pow10, 7);
        }
    }
    let mantissa: u64 = if fixed >= 0 {
        fixed as u64
    } else {
        (-(fixed as i128)) as u64
    };
    Decimal { negative: fixed < 0, mantissa, frac_digits }
}

// ---------------------------------------------------------------------------
// Decimal text
// ---------------------------------------------------------------------------

/// A decimal digit.
pub open spec fn is_digit(c: char) -> bool {
    48 <= c as u32 && c as u32 <= 57
}

/// The value of a decimal digit.
pub open spec fn digit_val(c: char) -> nat {
    (c as u32 - 48) as nat
}

/// Every character is a decimal digit.
pub open spec fn all_digits(s: Seq<char>) -> bool {
    forall|i: int| 0 <= i < s.len() ==> is_digit(#[trigger] s[i])
}

/// The value of a digit string, most significant first.
pub open spec fn digits_val(s: Seq<char>) -> nat
    decreases s.len(),
{
    if s.len() == 0 {
        0
    } else {
        digits_val(s.drop_last()) * 10 + digit_val(s.last())
    }
}

/// The index of the first `'.'`, or the length when there is none.
pub open spec fn first_dot(s: Seq<char>) -> int
    decreases s.len(),
{
    if s.len() == 0 {
        0
    } else if s[0] == '.' {
        0
    } else {
        1 + first_dot(s.subrange(1, s.len() as int))
    }
}

/// The grammar of an unsigned decimal: integer digits, optionally followed
/// by one dot and fraction digits, with at most 19 digits in all so that
/// the mantissa always fits a `u64`. The result is the mantissa and the
/// number of fraction digits.
pub open spec fn spec_parse_unsigned_decimal(s: Seq<char>) -> Option<(nat, nat)> {
    let d = first_dot(s);
    if d == s.len() {
        if 1 <= s.len() <= 19 && all_digits(s) {
            Some((digits_val(s), 0 as nat))
        } else {
            None
        }
    } else {
        let ip = s.subrange(0, d);
        let fp = s.subrange(d + 1, s.len() as int);
        if ip.len() >= 1 && fp.len() >= 1 && ip.len() + fp.len() <= 19 && all_digits(ip)
            && all_digits(fp) {
            Some((digits_val(ip + fp), fp.len()))
        } else {
            None
        }
    }
}

/// The grammar of a signed decimal: an optional leading minus sign before
/// the unsigned form.
pub open spec fn spec_parse_decimal(s: Seq<char>) -> Option<Decimal> {
    if s.len() > 0 && s[0] == '-' {
        match spec_parse_unsigned_decimal(s.subrange(1, s.len() as int)) {
            Some(p) => Some(
                Decimal { negative: true, mantissa: p.0 as u64, frac_digits: p.1 as u64 },
            ),
            None => None,
        }
    } else {
        match spec_parse_unsigned_decimal(s) {
            Some(p) => Some(
                Decimal { negative: false, mantissa: p.0 as u64, frac_digits: p.1 as u64 },
            ),
            None => None,
        }
    }
}

/// A digit string's value stays under the power of ten of its length.
pub proof fn lemma_digits_val_bound(s: Seq<char>)
    requires
        all_digits(s),
    ensures
        digits_val(s) < pow10(s.len()),
    decreases s.len(),
{
    if s.len() == 0 {
    } else {
        let prefix = s.drop_last();
        assert(all_digits(prefix)) by {
            assert(forall|i: int| 0 <= i < prefix.len() ==> prefix[i] == s[i]);
        }
        lemma_digits_val_bound(prefix);
        assert(digit_val(s.last()) <= 9);
    }
}

/// Where the first dot is: at the first index holding one, or at the end.
proof fn lemma_first_dot_at(s: Seq<char>, k: int)
    requires
        0 <= k <= s.len(),
        forall|j: int| 0 <= j < k ==> s[j] != '.',
        k == s.len() || s[k] == '.',
    ensures
        first_dot(s) == k,
    decreases k,
{
    if k == 0 {
    } else {
        let rest = s.subrange(1, s.len() as int);
        lemma_first_dot_at(rest, k - 1);
    }
}

/// The first dot comes no earlier than any run of non-dot characters.
proof fn lemma_first_dot_min(s: Seq<char>, k: int)
    requires
        0 <= k <= s.len(),
        forall|j: int| 0 <= j < k ==> s[j] != '.',
    ensures
        first_dot(s) >= k,
    decreases k,
{
    lemma_first_dot_range(s);
    if k > 0 {
        assert(s[0] != '.');
        let rest = s.subrange(1, s.len() as int);
        assert(forall|j: int| 0 <= j < k - 1 ==> rest[j] == s[j + 1]);
        lemma_first_dot_min(rest, k - 1);
    }
}

/// The first dot lies within the text, and marks a dot when it is not at
/// the end.
proof fn lemma_first_dot_range(s: Seq<char>)
    ensures
        0 <= first_dot(s) <= s.len(),
        first_dot(s) < s.len() ==> s[first_dot(s)] == '.',
    decreases s.len(),
{
    if s.len() > 0 && s[0] != '.' {
        lemma_first_dot_range(s.subrange(1, s.len() as int));
    }
}

/// Appending a digit multiplies the value by ten and adds the digit.
proof fn lemma_digits_val_push(s: Seq<char>, c: char)
    ensures
        digits_val(s.push(c)) == digits_val(s) * 10 + digit_val(c),
{
    assert(s.push(c).drop_last() =~= s);
}

/// A signed parse is the unsigned parse of what follows the sign.
proof fn lemma_unsigned_of(s: Seq<char>, start: int)
    requires
        start == if s.len() > 0 && s[0] == '-' {
            1int
        } else {
            0int
        },
    ensures
        spec_parse_decimal(s) == match spec_parse_unsigned_decimal(
            s.subrange(start, s.len() as int),
        ) {
            Some(p) => Some(
                Decimal { negative: start == 1, mantissa: p.0 as u64, frac_digits: p.1 as u64 },
            ),
            None => None::<Decimal>,
        },
{
    if !(s.len() > 0 && s[0] == '-') {
        assert(s.subrange(0, s.len() as int) =~= s);
    }
}

/// Digits are not dots.
proof fn lemma_digit_not_dot(c: char)
    requires
        is_digit(c),
    ensures
        c != '.',
{
    assert('.' as u32 == 46);
}

/// A dot out of place — a second one, or one before any integer digit —
/// makes the whole text unparsable.
proof fn lemma_parse_rejected(s: Seq<char>, start: int, dot: int, i: int, n: int)
    requires
        n == s.len(),
        start == if s.len() > 0 && s[0] == '-' {
            1int
        } else {
            0int
        },
        start <= i < n,
        s[i] == '.',
        dot == n || (start <= dot < i && s[dot] == '.'),
        dot == n ==> all_digits(s.subrange(start, i)),
        dot < n ==> all_digits(s.subrange(start, dot)) && all_digits(s.subrange(dot + 1, i)),
        dot < n || i == start,
    ensures
        spec_parse_decimal(s) == None::<Decimal>,
{
    lemma_unsigned_of(s, start);
    let u = s.subrange(start, n);
    if dot < n {
        let d = dot - start;
        assert forall|j: int| 0 <= j < d implies u[j] != '.' by {
            assert(is_digit(s.subrange(start, dot)[j]));
            lemma_digit_not_dot(u[j]);
        }
        lemma_first_dot_at(u, d);
        let fp = u.subrange(d + 1, u.len() as int);
        assert(fp[i - dot - 1] == s[i]);
        assert(!is_digit(fp[i - dot - 1])) by {
            assert('.' as u32 == 46);
        }
        assert(!all_digits(fp));
    } else {
        lemma_first_dot_at(u, 0);
        assert(u.subrange(0, 0).len() == 0);
    }
}

/// A twentieth digit pushes the mantissa past what a `u64` can hold, so
/// the text is unparsable.
proof fn lemma_parse_too_long(s: Seq<char>, start: int, dot: int, i: int, n: int)
    requires
        n == s.len(),
        start == if s.len() > 0 && s[0] == '-' {
            1int
        } else {
            0int
        },
        start <= i < n,
        is_digit(s[i]),
        dot == n || (start <= dot < i && s[dot] == '.'),
        dot == n ==> all_digits(s.subrange(start, i)) && i - start == 19,
        dot < n ==> all_digits(s.subrange(start, dot)) && all_digits(s.subrange(dot + 1, i)) && i
            - start - 1 == 19 && dot - start >= 1,
    ensures
        spec_parse_decimal(s) == None::<Decimal>,
{
    lemma_unsigned_of(s, start);
    let u = s.subrange(start, n);
    if dot == n {
        assert forall|j: int| 0 <= j < i - start + 1 implies u[j] != '.' by {
            if j < i - start {
                assert(is_digit(s.subrange(start, i)[j]));
            }
            assert(is_digit(u[j]));
            lemma_digit_not_dot(u[j]);
        }
        lemma_first_dot_min(u, i - start + 1);
        lemma_first_dot_range(u);
        let d = first_dot(u);
        if d == u.len() {
            assert(u.len() >= 20);
        } else {
            assert(u.subrange(0, d).len() >= 20);
        }
    } else {
        let d = dot - start;
        assert forall|j: int| 0 <= j < d implies u[j] != '.' by {
            assert(is_digit(s.subrange(start, dot)[j]));
            lemma_digit_not_dot(u[j]);
        }
        lemma_first_dot_at(u, d);
        let ip = u.subrange(0, d);
        let fp = u.subrange(d + 1, u.len() as int);
        assert(ip.len() + fp.len() == n - start - 1 >= 20);
    }
}

/// Before the twentieth digit, the accumulated mantissa stays below
/// `10^18`, so one more digit cannot overflow a `u64`.
proof fn lemma_digits_bound_step(s: Seq<char>, start: int, dot: int, i: int)
    requires
        0 <= start <= i <= s.len(),
        dot == s.len() || (start <= dot < i),
        dot == s.len() ==> all_digits(s.subrange(start, i)) && i - start <= 18,
        dot < s.len() ==> all_digits(s.subrange(start, dot)) && all_digits(
            s.subrange(dot + 1, i),
        ) && i - start - 1 <= 18,
    ensures
        dot == s.len() ==> digits_val(s.subrange(start, i)) < 1_000_000_000_000_000_000,
        dot < s.len() ==> digits_val(s.subrange(start, dot) + s.subrange(dot + 1, i))
            < 1_000_000_000_000_000_000,
{
    assert(pow10(18) == 1_000_000_000_000_000_000) by {
        reveal_with_fuel(pow10, 20);
    }
    if dot == s.len() {
        let t = s.subrange(start, i);
        lemma_digits_val_bound(t);
        lemma_pow10_monotone(t.len(), 18);
    } else {
        let t = s.subrange(start, dot) + s.subrange(dot + 1, i);
        assert(all_digits(t)) by {
            assert(forall|j: int|
                0 <= j < t.len() ==> #[trigger] t[j] == if j < dot - start {
                    s.subrange(start, dot)[j]
                } else {
                    s.subrange(dot + 1, i)[j - (dot - start)]
                });
        }
        lemma_digits_val_bound(t);
        lemma_pow10_monotone(t.len(), 18);
    }
}

/// A character that is neither a digit nor a dot makes the text
/// unparsable.
proof fn lemma_parse_rejected_char(s: Seq<char>, start: int, dot: int, i: int, n: int)
    requires
        n == s.len(),
        start == if s.len() > 0 && s[0] == '-' {
            1int
        } else {
            0int
        },
        start <= i < n,
        !is_digit(s[i]),
        s[i] != '.',
        dot == n || (start <= dot < i && s[dot] == '.'),
        dot == n ==> all_digits(s.subrange(start, i)),
        dot < n ==> all_digits(s.subrange(start, dot)) && all_digits(s.subrange(dot + 1, i)),
    ensures
        spec_parse_decimal(s) == None::<Decimal>,
{
    lemma_unsigned_of(s, start);
    let u = s.subrange(start, n);
    if dot == n {
        assert forall|j: int| 0 <= j < i - start implies u[j] != '.' by {
            assert(is_digit(s.subrange(start, i)[j]));
            lemma_digit_not_dot(u[j]);
        }
        lemma_first_dot_min(u, i - start);
        lemma_first_dot_range(u);
        let d = first_dot(u);
        if d == u.len() {
            assert(!is_digit(u[i - start]));
            assert(!all_digits(u));
        } else {
            assert(u[d] == '.');
            assert(d != i - start);
            assert(u.subrange(0, d)[i - start] == u[i - start]);
            assert(!all_digits(u.subrange(0, d)));
        }
    } else {
        let d = dot - start;
        assert forall|j: int| 0 <= j < d implies u[j] != '.' by {
            assert(is_digit(s.subrange(start, dot)[j]));
            lemma_digit_not_dot(u[j]);
        }
        lemma_first_dot_at(u, d);
        let fp = u.subrange(d + 1, u.len() as int);
        assert(fp[i - dot - 1] == s[i]);
        assert(!all_digits(fp));
    }
}

/// Text with no digits at all, or with nothing after its dot, is
/// unparsable.
proof fn lemma_parse_empty_side(s: Seq<char>, start: int, dot: int, n: int)
    requires
        n == s.len(),
        start == if s.len() > 0 && s[0] == '-' {
            1int
        } else {
            0int
        },
        start <= n,
        (dot == n && n == start) || (start < dot < n && s[dot] == '.' && dot == n - 1 && all_digits(
            s.subrange(start, dot),
        )),
    ensures
        spec_parse_decimal(s) == None::<Decimal>,
{
    lemma_unsigned_of(s, start);
    let u = s.subrange(start, n);
    if dot == n {
        assert(u.len() == 0);
    } else {
        let d = dot - start;
        assert forall|j: int| 0 <= j < d implies u[j] != '.' by {
            assert(is_digit(s.subrange(start, dot)[j]));
            lemma_digit_not_dot(u[j]);
        }
        lemma_first_dot_at(u, d);
        assert(u.subrange(d + 1, u.len() as int).len() == 0);
    }
}

/// A fully scanned text parses to exactly the accumulated sign, mantissa
/// and fraction width.
proof fn lemma_parse_complete(s: Seq<char>, start: int, dot: int, n: int)
    requires
        n == s.len(),
        start == if s.len() > 0 && s[0] == '-' {
            1int
        } else {
            0int
        },
        start <= n,
        dot == n || (start <= dot < n && s[dot] == '.'),
        dot == n ==> all_digits(s.subrange(start, n)) && 1 <= n - start <= 19,
        dot < n ==> all_digits(s.subrange(start, dot)) && all_digits(s.subrange(dot + 1, n)) && dot
            - start >= 1 && dot <= n - 2 && n - start - 1 <= 19,
    ensures
        dot == n ==> spec_parse_decimal(s) == Some(
            Decimal {
                negative: start == 1,
                mantissa: digits_val(s.subrange(start, n)) as u64,
                frac_digits: 0,
            },
        ),
        dot < n ==> spec_parse_decimal(s) == Some(
            Decimal {
                negative: start == 1,
                mantissa: digits_val(s.subrange(start, dot) + s.subrange(dot + 1, n)) as u64,
                frac_digits: (n - dot - 1) as u64,
            },
        ),
{
    lemma_unsigned_of(s, start);
    let u = s.subrange(start, n);
    if dot == n {
        assert forall|j: int| 0 <= j < u.len() implies u[j] != '.' by {
            assert(is_digit(u[j]));
            lemma_digit_not_dot(u[j]);
        }
        lemma_first_dot_at(u, u.len() as int);
        assert(u =~= s.subrange(start, n));
    } else {
        let d = dot - start;
        assert forall|j: int| 0 <= j < d implies u[j] != '.' by {
            assert(is_digit(s.subrange(start, dot)[j]));
            lemma_digit_not_dot(u[j]);
        }
        lemma_first_dot_at(u, d);
        let ip = u.subrange(0, d);
        let fp = u.subrange(d + 1, u.len() as int);
        assert(ip =~= s.subrange(start, dot));
        assert(fp =~= s.subrange(dot + 1, n));
        assert(ip + fp =~= s.subrange(start, dot) + s.subrange(dot + 1, n));
    }
}

/// Parses decimal text: an optional minus sign, integer digits, and an
/// optional dot followed by fraction digits, with at most 19 digits in
/// all. Anything else — other characters, a second dot, an empty side, or
/// too many digits — is `None`, never a wrong value.
pub fn parse_decimal(s: &str) -> (r: Option<Decimal>)
    ensures
        r == spec_parse_decimal(s@),
{
    let n = s.unicode_len();
    let negative = n > 0 && s.get_char(0) == '-';
    let start: usize = if negative {
        1
    } else {
        0
    };
    let ghost u = s@.subrange(start as int, n as int);
    let mut i: usize = start;
    let mut mantissa: u64 = 0;
    let mut count: usize = 0;
    let mut dot: usize = n;
    // Scan once; `dot == n` means no dot has been seen yet.
    while i < n
        invariant
            start <= i <= n,
            n == s@.len(),
            count <= 19,
            start as int == if s@.len() > 0 && s@[0] == '-' {
                1int
            } else {
                0int
            },
            u == s@.subrange(start as int, n as int),
            dot == n || (start <= dot < i && s@[dot as int] == '.'),
            dot == n ==> {
                &&& count == i - start
                &&& all_digits(s@.subrange(start as int, i as int))
                &&& mantissa == digits_val(s@.subrange(start as int, i as int))
            },
            dot < n ==> {
                &&& count == i - start - 1
                &&& dot - start >= 1
                &&& all_digits(s@.subrange(start as int, dot as int))
                &&& all_digits(s@.subrange(dot as int + 1, i as int))
                &&& mantissa == digits_val(
                    s@.subrange(start as int, dot as int) + s@.subrange(dot as int + 1, i as int),
                )
            },
        decreases n - i,
    {
        let c = s.get_char(i);
        let code = c as u32;
        if c == '.' {
            if dot < n || i == start {
                // A second dot, or a dot with no integer digits before it.
                proof {
                    lemma_parse_rejected(s@, start as int, dot as int, i as int, n as int);
                }
                return None;
            }
            dot = i;
            proof {
                assert(s@.subrange(start as int, i as int) + s@.subrange(
                    i as int + 1,
                    i as int + 1,
                ) =~= s@.subrange(start as int, i as int));
            }
        } else if code >= 48 && code <= 57 {
            if count == 19 {
                // A twentieth digit can no longer fit the mantissa.
                proof {
                    lemma_parse_too_long(s@, start as int, dot as int, i as int, n as int);
                }
                return None;
            }
            proof {
                lemma_digits_bound_step(s@, start as int, dot as int, i as int);
            }
            mantissa = mantissa * 10 + (code - 48) as u64;
            count = count + 1;
            proof {
                if dot == n {
                    let t = s@.subrange(start as int, i as int);
                    lemma_digits_val_push(t, c);
                    assert(s@.subrange(start as int, i as int + 1) =~= t.push(c));
                    assert(all_digits(t.push(c)));
                } else {
                    let pre = s@.subrange(start as int, dot as int);
                    let t = s@.subrange(dot as int + 1, i as int);
                    lemma_digits_val_push(pre + t, c);
                    assert(s@.subrange(dot as int + 1, i as int + 1) =~= t.push(c));
                    assert(all_digits(t.push(c)));
                    assert(pre + t.push(c) =~= (pre + t).push(c));
                }
            }
        } else {
            // Not a digit and not a dot: the text is not a decimal.
            proof {
                lemma_parse_rejected_char(s@, start as int, dot as int, i as int, n as int);
            }
            return None;
        }
        i = i + 1;
    }
    if count == 0 || (dot < n && dot == n - 1) {
        // No digits at all, or a trailing dot with no fraction digits.
        proof {
            lemma_parse_empty_side(s@, start as int, dot as int, n as int);
        }
        return None;
    }
    let frac_digits: u64 = if dot < n {
        (n - dot - 1) as u64
    } else {
        0
    };
    proof {
        lemma_parse_complete(s@, start as int, dot as int, n as int);
    }
    Some(Decimal { negative, mantissa, frac_digits })
}

/// Round-trip codec law: converting a decimal to fixed point at a valid
/// scale and reading it back lands within `1 / scale` of the value it
/// started from.
/// With `t = spec_to_fixed(d, scale)`, the claim `|t / scale - d| <= 1 / scale`
/// is stated over the common denominator as
/// `|t * den - numer * scale| <= den`, where `d = numer / den`.
pub proof fn lemma_round_trip_within_tolerance(d: Decimal, scale: u64)
    requires
        d.wf(),
        valid_scale(scale),
    ensures
        abs(spec_to_fixed(d, scale) * d.spec_den() - d.spec_numer() * scale) <= d.spec_den(),
{
    let den = d.spec_den();
    let ms = d.mantissa as int * scale as int;
    let h = den / 2;
    let q = spec_round_mag(d, scale);
    lemma_pow10_monotone(0, d.frac_digits as nat);
    lemma_fundamental_div_mod(ms + h, den);
    lemma_mod_bound(ms + h, den);
    let rem = (ms + h) % den;
    assert(q * den == ms + h - rem);
    assert(abs(q * den - ms) <= den);
    if d.negative {
        assert(spec_to_fixed(d, scale) * den - d.spec_numer() * scale == -(q * den - ms))
            by (nonlinear_arith)
            requires
                spec_to_fixed(d, scale) == -q && d.spec_numer() == -(d.mantissa as int) && ms
                    == d.mantissa as int * scale as int,
        ;
    }
}

} // verus!
