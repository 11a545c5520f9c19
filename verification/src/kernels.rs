use vstd::prelude::*;

use vstd::arithmetic::div_mod::{
    lemma_mod_bound, lemma_mul_mod_noop_general, lemma_mul_mod_noop_left, lemma_small_mod,
};
use vstd::arithmetic::power::{
    lemma0_pow, lemma_pow0, lemma_pow1, lemma_pow_adds, lemma_pow_mod_noop, lemma_pow_multiplies,
    lemma_square_is_pow2, pow,
};

use crate::journal::{encode_journal, spec_encode_record, JournalRecord, RecordModel};
use crate::ops::{spec_scale_for, Operation};

verus! {

/// The fixed-point scale used by the computation kernels (four decimal
/// places): exactly the registry scale of the operations whose images
/// compute with it, as `lemma_kernel_scale_agrees` states.
pub const KERNEL_SCALE: i64 = 10000;

/// One scale per family: the kernels rescale and root at the same scale
/// the dispatcher uses to encode those operations' arguments.
pub proof fn lemma_kernel_scale_agrees()
    ensures
        KERNEL_SCALE as u64 == spec_scale_for(Operation::Multiply),
        KERNEL_SCALE as u64 == spec_scale_for(Operation::Sqrt),
{
}

/// Safe modular multiplication: `(a * b) % modulus` without intermediate
/// overflow, by widening to 128 bits.
pub fn modular_multiply(a: u64, b: u64, modulus: u64) -> (r: u64)
    requires
        modulus > 0,
    ensures
        r == (a as int * b as int) % (modulus as int),
        r < modulus,
{
    proof {
        assert(a as u128 * b as u128 <= (u64::MAX as u128) * (u64::MAX as u128))
            by (nonlinear_arith)
            requires
                a <= u64::MAX && b <= u64::MAX,
        ;
        lemma_mod_bound(a as int * b as int, modulus as int);
    }
    let wide: u128 = (a as u128 * b as u128) % (modulus as u128);
    wide as u64
}

/// Modular exponentiation by square-and-multiply. A zero modulus is answered
/// with 0 rather than a division, and any value modulo 1 is 0; otherwise the
/// result is exactly `base^exponent mod modulus`.
pub fn modular_exponentiation(base: u64, exponent: u64, modulus: u64) -> (r: u64)
    ensures
        modulus == 0 ==> r == 0,
        modulus == 1 ==> r == 0,
        modulus > 1 ==> r == pow(base as int, exponent as nat) % (modulus as int),
{
    if modulus == 0 {
        return 0;
    }
    if modulus == 1 {
        return 0;
    }
    if exponent == 0 {
        proof {
            lemma_pow0(base as int);
            lemma_small_mod(1nat, modulus as nat);
        }
        return 1;
    }
    let reduced: u64 = base % modulus;
    proof {
        lemma_pow_mod_noop(base as int, exponent as nat, modulus as int);
    }
    if reduced == 0 {
        proof {
            lemma0_pow(exponent as nat);
            lemma_small_mod(0nat, modulus as nat);
        }
        return 0;
    }
    let mut b: u64 = reduced;
    let mut e: u64 = exponent;
    let mut result: u64 = 1;
    proof {
        lemma_small_mod(1nat, modulus as nat);
    }
    while e > 0
        invariant
            modulus > 1,
            result < modulus,
            b < modulus,
            (result as int * pow(b as int, e as nat)) % (modulus as int) == pow(
                base as int,
                exponent as nat,
            ) % (modulus as int),
        decreases e,
    {
        let ghost m = modulus as int;
        let ghost result0 = result as int;
        let ghost b0 = b as int;
        let ghost e0 = e as nat;
        if e & 1 == 1 {
            result = modular_multiply(result, b, modulus);
        }
        let b_next = modular_multiply(b, b, modulus);
        proof {
            assert(e & 1 == e % 2) by (bit_vector);
            assert(e >> 1 == e / 2) by (bit_vector);
            let half = (e0 / 2) as nat;
            let p = pow(b0 * b0, half);
            let bn = b_next as int;
            lemma_square_is_pow2(b0);
            lemma_pow_multiplies(b0, 2, half);
            assert(pow(b0, (2 * half) as nat) == p);
            lemma_pow_mod_noop(b0 * b0, half, m);
            assert(pow(bn, half) % m == p % m);
            if e0 % 2 == 1 {
                let r1 = result as int;
                assert(e0 == 1 + 2 * half);
                lemma_pow_adds(b0, 1, (2 * half) as nat);
                lemma_pow1(b0);
                assert(pow(b0, e0) == b0 * p);
                lemma_mul_mod_noop_general(r1, pow(bn, half), m);
                lemma_small_mod(r1 as nat, modulus as nat);
                lemma_mul_mod_noop_general(r1, p, m);
                assert((r1 * pow(bn, half)) % m == (r1 * p) % m);
                lemma_mul_mod_noop_left(result0 * b0, p, m);
                assert((r1 * p) % m == ((result0 * b0) * p) % m);
                assert((result0 * b0) * p == result0 * (b0 * p)) by (nonlinear_arith);
                assert((result as int * pow(bn, half)) % m == (result0 * pow(b0, e0)) % m);
            } else {
                assert(e0 == 2 * half);
                assert(pow(b0, e0) == p);
                lemma_mul_mod_noop_general(result0, pow(bn, half), m);
                lemma_small_mod(result0 as nat, modulus as nat);
                lemma_mul_mod_noop_general(result0, p, m);
                assert((result0 * pow(bn, half)) % m == (result0 * p) % m);
            }
        }
        b = b_next;
        e = e >> 1;
    }
    proof {
        lemma_pow0(b as int);
        lemma_small_mod(result as nat, modulus as nat);
    }
    result
}

/// Integer square root by binary search: the largest `x` with `x * x <= n`.
pub fn integer_sqrt(n: u32) -> (r: u32)
    ensures
        n == 0 ==> r == 0,
        n > 0 ==> (r as int) * (r as int) <= n < (r as int + 1) * (r as int + 1),
{
    if n == 0 {
        return 0;
    }
    if n < 4 {
        return 1;
    }
    let mut left: u32 = 1;
    let mut right: u32 = n / 2;
    let mut result: u32 = 1;
    proof {
        assert((n as int / 2 + 1) * (n as int / 2 + 1) > n as int) by (nonlinear_arith)
            requires
                n >= 4,
        ;
    }
    while left <= right
        invariant
            n >= 4,
            1 <= left,
            right <= n / 2,
            1 <= result <= n,
            (result as int) * (result as int) <= n,
            n < (right as int + 1) * (right as int + 1),
            (left == 1 && result == 1) || left == result + 1,
        decreases right + 1 - left,
    {
        let mid = left + (right - left) / 2;
        proof {
            assert((mid as int) * (mid as int) < 0x1_0000_0000_0000_0000) by (nonlinear_arith)
                requires
                    0 <= (mid as int) && (mid as int) < 0x1_0000_0000,
            ;
        }
        let mid_squared = (mid as u64) * (mid as u64);
        let n_u64 = n as u64;
        if mid_squared == n_u64 {
            proof {
                assert((mid as int) * (mid as int) < (mid as int + 1) * (mid as int + 1))
                    by (nonlinear_arith);
            }
            return mid;
        } else if mid_squared < n_u64 {
            result = mid;
            left = mid + 1;
        } else {
            right = mid - 1;
        }
    }
    proof {
        if left == 1 && result == 1 {
            assert(right == 0);
            assert(false);
        }
        assert((right as int + 1) * (right as int + 1) <= (result as int + 1) * (result as int + 1))
            by (nonlinear_arith)
            requires
                0 <= right as int + 1 <= result as int + 1,
        ;
    }
    result
}

/// Fixed-point square root over `KERNEL_SCALE`. For inputs of at least one
/// whole unit a binary search finds `r` with `r * r / KERNEL_SCALE` at most
/// the input, stopping either at an exact match or at the largest such `r`;
/// smaller inputs fall back to `newton_sqrt`.
pub fn fixed_point_sqrt(n_fixed: i64) -> (r: i64)
    requires
        n_fixed <= 3_037_000_499,
    ensures
        n_fixed <= 0 ==> r == 0,
        0 < n_fixed < KERNEL_SCALE ==> 1 <= r <= (n_fixed as int) * (KERNEL_SCALE as int),
        n_fixed >= KERNEL_SCALE ==> {
            &&& 0 <= r <= n_fixed
            &&& (r as int) * (r as int) / (KERNEL_SCALE as int) <= n_fixed
            &&& ((r as int) * (r as int) / (KERNEL_SCALE as int) == n_fixed || (r as int + 1) * (
            r as int + 1) / (KERNEL_SCALE as int) > n_fixed)
        },
{
    if n_fixed <= 0 {
        return 0;
    }
    if n_fixed < KERNEL_SCALE {
        return newton_sqrt(n_fixed);
    }
    let mut left: i64 = 0;
    let mut right: i64 = n_fixed;
    let mut result: i64 = 0;
    proof {
        let s = KERNEL_SCALE as int;
        let n = n_fixed as int;
        assert((n + 1) * s <= (n + 1) * (n + 1)) by (nonlinear_arith)
            requires
                s >= 1 && n + 1 >= s,
        ;
        vstd::arithmetic::div_mod::lemma_div_by_multiple(n + 1, s);
        vstd::arithmetic::div_mod::lemma_div_is_ordered((n + 1) * s, (n + 1) * (n + 1), s);
    }
    while left <= right
        invariant
            KERNEL_SCALE <= n_fixed <= 3_037_000_499,
            0 <= left,
            -1 <= right <= n_fixed,
            0 <= result <= n_fixed,
            (result as int) * (result as int) / (KERNEL_SCALE as int) <= n_fixed,
            n_fixed < (right as int + 1) * (right as int + 1) / (KERNEL_SCALE as int),
            (left == 0 && result == 0) || left == result + 1,
        decreases right + 1 - left,
    {
        let mid = left + (right - left) / 2;
        proof {
            assert((mid as int) * (mid as int) <= 3_037_000_499int * 3_037_000_499int)
                by (nonlinear_arith)
                requires
                    0 <= mid as int <= 3_037_000_499int,
            ;
        }
        let mid_squared = (mid * mid) / KERNEL_SCALE;
        if mid_squared == n_fixed {
            return mid;
        } else if mid_squared < n_fixed {
            result = mid;
            left = mid + 1;
        } else {
            right = mid - 1;
        }
    }
    proof {
        let s = KERNEL_SCALE as int;
        if left == 0 && result == 0 {
            assert(right == -1);
            assert((right as int + 1) * (right as int + 1) == 0);
            vstd::arithmetic::div_mod::lemma_div_of0(s);
            assert(false);
        }
        assert((right as int + 1) * (right as int + 1) <= (result as int + 1) * (result as int + 1))
            by (nonlinear_arith)
            requires
                0 <= right as int + 1 <= result as int + 1,
        ;
        vstd::arithmetic::div_mod::lemma_div_is_ordered(
            (right as int + 1) * (right as int + 1),
            (result as int + 1) * (result as int + 1),
            KERNEL_SCALE as int,
        );
    }
    result
}

/// Newton's method for the fixed-point square root of inputs below one
/// whole unit. The iteration is bounded and the result stays between 1 and
/// `n * KERNEL_SCALE`; no exactness is promised.
pub fn newton_sqrt(n_fixed: i64) -> (r: i64)
    requires
        n_fixed <= 461_168_601_842_738,
    ensures
        n_fixed <= 0 ==> r == 0,
        n_fixed > 0 ==> 1 <= r <= (n_fixed as int) * (KERNEL_SCALE as int),
{
    if n_fixed <= 0 {
        return 0;
    }
    let mut x: i64 = if n_fixed > KERNEL_SCALE {
        n_fixed / 2
    } else {
        KERNEL_SCALE
    };
    proof {
        let n = n_fixed as int;
        let s = KERNEL_SCALE as int;
        assert(n / 2 <= n * s && s <= n * s) by (nonlinear_arith)
            requires
                n >= 1 && s >= 10000,
        ;
    }
    let mut i: usize = 0;
    while i < 10
        invariant
            1 <= n_fixed <= 461_168_601_842_738,
            1 <= x,
            x as int <= (n_fixed as int) * (KERNEL_SCALE as int),
        decreases 10 - i,
    {
        let scaled = n_fixed * KERNEL_SCALE;
        proof {
            let n = n_fixed as int;
            let s = KERNEL_SCALE as int;
            vstd::arithmetic::div_mod::lemma_div_pos_is_pos(n * s, x as int);
            vstd::arithmetic::div_mod::lemma_div_nonincreasing(n * s, x as int);
            assert(n * s >= s) by (nonlinear_arith)
                requires
                    n >= 1 && s >= 1,
            ;
        }
        let x_new = (x + scaled / x) / 2;
        proof {
            let n = n_fixed as int;
            let s = KERNEL_SCALE as int;
            if x >= 2 {
                assert(x_new >= 1);
            } else {
                assert(x == 1);
                vstd::arithmetic::div_mod::lemma_div_basics_1(n * s);
                assert(x_new == (1 + n * s) / 2);
                vstd::arithmetic::div_mod::lemma_div_is_ordered(2, 1 + n * s, 2);
            }
        }
        let diff = x - x_new;
        if diff < 1 && diff > -1 {
            break ;
        }
        x = x_new;
        i = i + 1;
    }
    x
}

/// The Fibonacci sequence.
pub open spec fn spec_fib(n: nat) -> nat
    decreases n,
{
    if n == 0 {
        0
    } else if n == 1 {
        1
    } else {
        spec_fib((n - 1) as nat) + spec_fib((n - 2) as nat)
    }
}

/// A linear-recursion companion: the pair `(fib(n), fib(n + 1))`.
pub open spec fn spec_fib_pair(n: nat) -> (nat, nat)
    decreases n,
{
    if n == 0 {
        (0, 1)
    } else {
        let prev = spec_fib_pair((n - 1) as nat);
        (prev.1, prev.0 + prev.1)
    }
}

/// The companion pair agrees with the sequence.
proof fn lemma_fib_pair(n: nat)
    ensures
        spec_fib_pair(n).0 == spec_fib(n),
        spec_fib_pair(n).1 == spec_fib(n + 1),
    decreases n,
{
    if n > 0 {
        lemma_fib_pair((n - 1) as nat);
    }
}

/// The sequence never decreases.
proof fn lemma_fib_monotone(i: nat, j: nat)
    requires
        i <= j,
    ensures
        spec_fib(i) <= spec_fib(j),
    decreases j,
{
    if i < j && j >= 2 {
        lemma_fib_monotone(i, (j - 1) as nat);
    } else if i < j && j == 1 {
        assert(spec_fib(0) == 0);
    }
}

/// Every value up to index 92 fits in a signed 64-bit integer.
#[verifier::rlimit(100)]
proof fn lemma_fib_bound(n: nat)
    requires
        n <= 92,
    ensures
        spec_fib(n) <= 7_540_113_804_746_346_429,
{
    assert(spec_fib_pair(23) == (28_657nat, 46_368nat)) by {
        reveal_with_fuel(spec_fib_pair, 25);
    }
    assert(spec_fib_pair(46) == (1_836_311_903nat, 2_971_215_073nat)) by {
        reveal_with_fuel(spec_fib_pair, 25);
    }
    assert(spec_fib_pair(69) == (117_669_030_460_994nat, 190_392_490_709_135nat)) by {
        reveal_with_fuel(spec_fib_pair, 25);
    }
    assert(spec_fib_pair(92).0 == 7_540_113_804_746_346_429) by {
        reveal_with_fuel(spec_fib_pair, 25);
    }
    lemma_fib_pair(92);
    lemma_fib_monotone(n, 92);
}

/// Iterative Fibonacci; non-positive indices answer 0.
pub fn fibonacci(n: i64) -> (r: i64)
    requires
        n <= 92,
    ensures
        n <= 0 ==> r == 0,
        n > 0 ==> r == spec_fib(n as nat),
{
    if n <= 0 {
        0
    } else if n == 1 {
        1
    } else {
        let mut a: i64 = 0;
        let mut b: i64 = 1;
        let mut idx: i64 = 2;
        while idx <= n
            invariant
                2 <= idx <= n + 1,
                n <= 92,
                a == spec_fib((idx - 2) as nat),
                b == spec_fib((idx - 1) as nat),
            decreases n + 1 - idx,
        {
            proof {
                lemma_fib_bound((idx) as nat);
            }
            let temp = a + b;
            a = b;
            b = temp;
            idx = idx + 1;
        }
        b
    }
}

/// The range predicate committed by the range execution image: whether the
/// secret lies within the inclusive bounds, with both one-sided checks.
pub fn range_check(secret: u64, min_value: u64, max_value: u64) -> (r: (bool, bool, bool))
    ensures
        r.0 == (min_value <= secret && secret <= max_value),
        r.1 == (min_value <= secret),
        r.2 == (secret <= max_value),
{
    let in_range = secret >= min_value && secret <= max_value;
    let above_min = secret >= min_value;
    let below_max = secret <= max_value;
    (in_range, above_min, below_max)
}

/// The host-side twin of `modular_exponentiation`, used to predict the
/// result that the execution image will commit.
pub fn modular_exponentiation_host(base: u64, exponent: u64, modulus: u64) -> (r: u64)
    ensures
        modulus == 0 ==> r == 0,
        modulus == 1 ==> r == 0,
        modulus > 1 ==> r == pow(base as int, exponent as nat) % (modulus as int),
{
    modular_exponentiation(base, exponent, modulus)
}

/// Division as the machine performs it on signed values: the quotient is
/// truncated toward zero.
pub open spec fn div_trunc(x: int, d: int) -> int
    recommends
        d > 0,
{
    if x >= 0 {
        x / d
    } else {
        -((-x) / d)
    }
}

/// The value the modular-exponentiation image commits as its result.
pub open spec fn spec_modexp(base: u64, exponent: u64, modulus: u64) -> u64 {
    if modulus <= 1 {
        0
    } else {
        (pow(base as int, exponent as nat) % (modulus as int)) as u64
    }
}

/// The journal committed by the addition image: both fixed-point operands
/// and their sum, in order.
pub fn addition_journal(a: i64, b: i64) -> (r: Vec<u8>)
    requires
        i64::MIN <= a as int + b as int <= i64::MAX,
    ensures
        r@ == spec_encode_record(RecordModel::Binary { a, b, result: (a + b) as i64 }),
{
    let result = a + b;
    encode_journal(&JournalRecord::Binary { a, b, result })
}

/// The journal committed by the multiplication image: both fixed-point
/// operands and their rescaled product. Multiplying two fixed-point values
/// doubles the scale, so the raw product is divided by the operation's own
/// scale — the same one the dispatcher encoded the operands with — to
/// restore it.
pub fn multiply_journal(a: i64, b: i64) -> (r: Vec<u8>)
    requires
        i64::MIN <= a as int * b as int <= i64::MAX,
    ensures
        r@ == spec_encode_record(
            RecordModel::Binary {
                a,
                b,
                result: div_trunc(
                    a as int * b as int,
                    spec_scale_for(Operation::Multiply) as int,
                ) as i64,
            },
        ),
{
    let product = a * b;
    let result = product / KERNEL_SCALE;
    proof {
        let p = product as int;
        let s = KERNEL_SCALE as int;
        if p >= 0 {
            vstd::arithmetic::div_mod::lemma_div_is_ordered(p, i64::MAX as int, s);
        } else {
            vstd::arithmetic::div_mod::lemma_div_is_ordered(-p, -(i64::MIN as int), s);
        }
    }
    encode_journal(&JournalRecord::Binary { a, b, result })
}

/// The journal committed by the square-root image: the fixed-point input
/// and the root it computed.
pub fn sqrt_journal(n_fixed: i64) -> (r: (Vec<u8>, i64))
    requires
        n_fixed <= 3_037_000_499,
    ensures
        r.0@ == spec_encode_record(RecordModel::Unary { input: n_fixed, result: r.1 }),
        n_fixed <= 0 ==> r.1 == 0,
        n_fixed >= KERNEL_SCALE ==> (r.1 as int) * (r.1 as int) / (spec_scale_for(Operation::Sqrt)
            as int) <= n_fixed,
{
    let result = fixed_point_sqrt(n_fixed);
    (encode_journal(&JournalRecord::Unary { input: n_fixed, result }), result)
}

/// The journal committed by the modular-exponentiation image: base,
/// exponent, modulus and the result, in order.
pub fn modexp_journal(base: u64, exponent: u64, modulus: u64) -> (r: Vec<u8>)
    ensures
        r@ == spec_encode_record(
            RecordModel::ModExp {
                base,
                exponent,
                modulus,
                result: spec_modexp(base, exponent, modulus),
            },
        ),
{
    let result = modular_exponentiation(base, exponent, modulus);
    encode_journal(&JournalRecord::ModExp { base, exponent, modulus, result })
}

/// The journal committed by the range image: the three flags of the range
/// predicate, then the public bounds. The secret itself is never committed.
pub fn range_journal(secret: u64, min_value: u64, max_value: u64) -> (r: Vec<u8>)
    ensures
        r@ == spec_encode_record(
            RecordModel::RangeCheck {
                in_range: min_value <= secret && secret <= max_value,
                above_min: min_value <= secret,
                below_max: secret <= max_value,
                min: min_value,
                max: max_value,
            },
        ),
{
    let (in_range, above_min, below_max) = range_check(secret, min_value, max_value);
    encode_journal(
        &JournalRecord::RangeCheck {
            in_range,
            above_min,
            below_max,
            min: min_value,
            max: max_value,
        },
    )
}

/// The journal committed by the authenticated-addition image: the operands
/// and their sum, then the timestamp and task identifier it was handed.
pub fn authenticated_add_journal(a: i64, b: i64, timestamp: u64, task_id: &str) -> (r: Vec<u8>)
    requires
        i64::MIN <= a as int + b as int <= i64::MAX,
        vstd::utf8::encode_utf8(task_id@).len() <= u32::MAX,
    ensures
        r@ == spec_encode_record(
            RecordModel::Authenticated {
                a,
                b,
                result: (a + b) as i64,
                timestamp,
                task_id: task_id@,
            },
        ),
{
    let result = a + b;
    let task = String::from_str(task_id);
    encode_journal(&JournalRecord::Authenticated { a, b, result, timestamp, task_id: task })
}

/// What a dynamically supplied program receives once its JSON document has
/// been taken apart: the index under its `n` field, at the head of an
/// array, or as a bare number — or one of the malformed shapes.
#[derive(Debug, Clone, Copy, PartialEq, Eq, Structural)]
pub enum DynamicInput {
    /// `{"n": k}` with a numeric `k`.
    NumberField(i64),
    /// `{"n": v}` where `v` is not a number.
    NumberFieldNotNumber,
    /// `[k, ...]` with a numeric head.
    ArrayHead(i64),
    /// `[v, ...]` whose head is not a number.
    ArrayHeadNotNumber,
    /// `[]`.
    EmptyArray,
    /// A bare number `k`.
    BareNumber(i64),
    /// Any other JSON shape.
    OtherShape,
    /// Text that is not JSON at all.
    Malformed,
}

/// The index a dynamic input designates, if any.
pub open spec fn dynamic_input_index(input: DynamicInput) -> Option<i64> {
    match input {
        DynamicInput::NumberField(n) => Some(n),
        DynamicInput::ArrayHead(n) => Some(n),
        DynamicInput::BareNumber(n) => Some(n),
        _ => None,
    }
}

/// The result the example dynamic program commits: the Fibonacci number of
/// the designated index, or a negative code naming what was malformed.
pub fn dynamic_guest_result(input: DynamicInput) -> (r: i64)
    requires
        dynamic_input_index(input) matches Some(n) ==> n <= 92,
    ensures
        (dynamic_input_index(input) matches Some(n) ==> (if n <= 0 {
            r == 0
        } else {
            r == spec_fib(n as nat)
        })),
        input is NumberFieldNotNumber ==> r == -2,
        input is ArrayHeadNotNumber ==> r == -3,
        input is EmptyArray ==> r == -4,
        input is OtherShape ==> r == -5,
        input is Malformed ==> r == -6,
{
    match input {
        DynamicInput::NumberField(n) => fibonacci(n),
        DynamicInput::ArrayHead(n) => fibonacci(n),
        DynamicInput::BareNumber(n) => fibonacci(n),
        DynamicInput::NumberFieldNotNumber => -2,
        DynamicInput::ArrayHeadNotNumber => -3,
        DynamicInput::EmptyArray => -4,
        DynamicInput::OtherShape => -5,
        DynamicInput::Malformed => -6,
    }
}

/// The journal committed by the example dynamic program: its single result.
pub fn dynamic_journal(input: DynamicInput) -> (r: (Vec<u8>, i64))
    requires
        dynamic_input_index(input) matches Some(n) ==> n <= 92,
    ensures
        r.0@ == spec_encode_record(RecordModel::Single { result: r.1 }),
        (dynamic_input_index(input) matches Some(n) ==> (if n <= 0 {
            r.1 == 0
        } else {
            r.1 == spec_fib(n as nat)
        })),
        input is NumberFieldNotNumber ==> r.1 == -2,
        input is ArrayHeadNotNumber ==> r.1 == -3,
        input is EmptyArray ==> r.1 == -4,
        input is OtherShape ==> r.1 == -5,
        input is Malformed ==> r.1 == -6,
{
    let result = dynamic_guest_result(input);
    (encode_journal(&JournalRecord::Single { result }), result)
}

} // verus!
