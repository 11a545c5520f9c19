use vstd::prelude::*;

use vstd::bytes::{
    lemma_auto_spec_u32_to_from_le_bytes, lemma_auto_spec_u64_to_from_le_bytes,
    spec_u32_from_le_bytes, spec_u32_to_le_bytes, spec_u64_from_le_bytes, spec_u64_to_le_bytes,
    u32_from_le_bytes, u32_to_le_bytes, u64_from_le_bytes, u64_to_le_bytes,
};
use vstd::slice::{slice_subrange, slice_to_vec};

use crate::errors::HarnessError;
use crate::ops::Operation;

verus! {

// ---------------------------------------------------------------------------
// Field primitives
//
// Every journal field is little-endian and positional: signed and unsigned
// 64-bit integers take eight bytes, booleans take four bytes as a `u32` that
// is 1 or 0, and strings take a four-byte length followed by their bytes,
// zero-padded to a multiple of four.
// ---------------------------------------------------------------------------

/// The little-endian bytes of a signed 64-bit field (two's complement).
pub open spec fn spec_i64_le(x: i64) -> Seq<u8> {
    spec_u64_to_le_bytes(x as u64)
}

/// The four-byte encoding of a boolean field.
pub open spec fn spec_bool_word(b: bool) -> Seq<u8> {
    spec_u32_to_le_bytes(
        if b {
            1u32
        } else {
            0u32
        },
    )
}

/// How many zero bytes pad a field of `n` bytes to a word boundary.
pub open spec fn pad_len(n: nat) -> nat {
    if n % 4 == 0 {
        0
    } else {
        (4 - n % 4) as nat
    }
}

/// A byte sequence zero-padded to a multiple of four bytes.
pub open spec fn spec_word_padded(s: Seq<u8>) -> Seq<u8> {
    s + Seq::new(pad_len(s.len()), |i: int| 0u8)
}

/// The unsigned 64-bit field starting at byte `off`.
pub open spec fn spec_u64_at(s: Seq<u8>, off: int) -> u64 {
    spec_u64_from_le_bytes(s.subrange(off, off + 8))
}

/// The signed 64-bit field starting at byte `off`.
pub open spec fn spec_i64_at(s: Seq<u8>, off: int) -> i64 {
    spec_u64_at(s, off) as i64
}

/// The unsigned 32-bit field starting at byte `off`.
pub open spec fn spec_u32_at(s: Seq<u8>, off: int) -> u32 {
    spec_u32_from_le_bytes(s.subrange(off, off + 4))
}

/// Reads the unsigned 64-bit field at byte `off`.
pub fn read_u64_at(bytes: &Vec<u8>, off: usize) -> (r: u64)
    requires
        off + 8 <= bytes@.len(),
    ensures
        r == spec_u64_at(bytes@, off as int),
{
    let _n: usize = bytes.len();
    u64_from_le_bytes(slice_subrange(bytes.as_slice(), off, off + 8))
}

/// Reads the signed 64-bit field at byte `off`.
pub fn read_i64_at(bytes: &Vec<u8>, off: usize) -> (r: i64)
    requires
        off + 8 <= bytes@.len(),
    ensures
        r == spec_i64_at(bytes@, off as int),
{
    read_u64_at(bytes, off) as i64
}

/// Reads the unsigned 32-bit field at byte `off`.
pub fn read_u32_at(bytes: &Vec<u8>, off: usize) -> (r: u32)
    requires
        off + 4 <= bytes@.len(),
    ensures
        r == spec_u32_at(bytes@, off as int),
{
    let _n: usize = bytes.len();
    u32_from_le_bytes(slice_subrange(bytes.as_slice(), off, off + 4))
}

/// Appends the little-endian bytes of an unsigned 64-bit field.
pub fn push_u64_le(out: &mut Vec<u8>, x: u64)
    ensures
        final(out)@ == old(out)@ + spec_u64_to_le_bytes(x),
{
    let word = u64_to_le_bytes(x);
    out.extend_from_slice(word.as_slice());
}

/// Appends the little-endian bytes of a signed 64-bit field.
pub fn push_i64_le(out: &mut Vec<u8>, x: i64)
    ensures
        final(out)@ == old(out)@ + spec_i64_le(x),
{
    push_u64_le(out, x as u64);
}

/// Appends the four-byte encoding of a boolean field.
pub fn push_bool_word(out: &mut Vec<u8>, b: bool)
    ensures
        final(out)@ == old(out)@ + spec_bool_word(b),
{
    let word = u32_to_le_bytes(
        if b {
            1u32
        } else {
            0u32
        },
    );
    out.extend_from_slice(word.as_slice());
}

/// A string field as the proving engine serializes it: four length bytes,
/// the UTF-8 bytes of the text, zero padding to a word boundary.
pub open spec fn spec_str_field(s: Seq<char>) -> Seq<u8> {
    spec_u32_to_le_bytes(vstd::utf8::encode_utf8(s).len() as u32) + spec_word_padded(
        vstd::utf8::encode_utf8(s),
    )
}

/// Appends a string field in the engine's serialization.
pub fn push_str_field(out: &mut Vec<u8>, s: &str)
    requires
        vstd::utf8::encode_utf8(s@).len() <= u32::MAX,
    ensures
        final(out)@ == old(out)@ + spec_str_field(s@),
{
    let bytes = s.as_bytes_vec();
    let len_word = u32_to_le_bytes(bytes.len() as u32);
    out.extend_from_slice(len_word.as_slice());
    out.extend_from_slice(bytes.as_slice());
    let pad = if bytes.len() % 4 == 0 {
        0usize
    } else {
        4 - bytes.len() % 4
    };
    let mut k: usize = 0;
    while k < pad
        invariant
            k <= pad,
            pad == pad_len(bytes@.len()),
            out@ == old(out)@ + spec_u32_to_le_bytes(bytes@.len() as u32) + bytes@ + Seq::new(
                k as nat,
                |i: int| 0u8,
            ),
        decreases pad - k,
    {
        out.push(0u8);
        proof {
            assert(out@ =~= old(out)@ + spec_u32_to_le_bytes(bytes@.len() as u32) + bytes@
                + Seq::new((k + 1) as nat, |i: int| 0u8));
        }
        k = k + 1;
    }
    proof {
        assert(out@ =~= old(out)@ + spec_str_field(s@));
    }
}

// ---------------------------------------------------------------------------
// Records
// ---------------------------------------------------------------------------

/// The decoded contents of one journal, by operation family.
#[derive(Debug, Clone, PartialEq)]
pub enum JournalRecord {
    /// Two fixed-point operands and their result (addition, multiplication).
    Binary { a: i64, b: i64, result: i64 },
    /// One fixed-point input and its result (square root).
    Unary { input: i64, result: i64 },
    /// Base, exponent, modulus and result of a modular exponentiation.
    ModExp { base: u64, exponent: u64, modulus: u64, result: u64 },
    /// The three range flags followed by the public bounds.
    RangeCheck { in_range: bool, above_min: bool, below_max: bool, min: u64, max: u64 },
    /// A self-describing result record with task metadata.
    Authenticated { a: i64, b: i64, result: i64, timestamp: u64, task_id: String },
    /// A single signed result, committed by caller-supplied programs.
    Single { result: i64 },
}

/// The mathematical model of a record: the same fields, with the task
/// identifier as its character sequence.
pub enum RecordModel {
    Binary { a: i64, b: i64, result: i64 },
    Unary { input: i64, result: i64 },
    ModExp { base: u64, exponent: u64, modulus: u64, result: u64 },
    RangeCheck { in_range: bool, above_min: bool, below_max: bool, min: u64, max: u64 },
    Authenticated { a: i64, b: i64, result: i64, timestamp: u64, task_id: Seq<char> },
    Single { result: i64 },
}

impl View for JournalRecord {
    type V = RecordModel;

    open spec fn view(&self) -> RecordModel {
        match self {
            JournalRecord::Binary { a, b, result } => RecordModel::Binary {
                a: *a,
                b: *b,
                result: *result,
            },
            JournalRecord::Unary { input, result } => RecordModel::Unary {
                input: *input,
                result: *result,
            },
            JournalRecord::ModExp { base, exponent, modulus, result } => RecordModel::ModExp {
                base: *base,
                exponent: *exponent,
                modulus: *modulus,
                result: *result,
            },
            JournalRecord::RangeCheck { in_range, above_min, below_max, min, max } => {
                RecordModel::RangeCheck {
                    in_range: *in_range,
                    above_min: *above_min,
                    below_max: *below_max,
                    min: *min,
                    max: *max,
                }
            },
            JournalRecord::Authenticated { a, b, result, timestamp, task_id } => {
                RecordModel::Authenticated {
                    a: *a,
                    b: *b,
                    result: *result,
                    timestamp: *timestamp,
                    task_id: task_id@,
                }
            },
            JournalRecord::Single { result } => RecordModel::Single { result: *result },
        }
    }
}

/// Whether a record belongs to the journal layout of an operation.
pub open spec fn record_fits_operation(m: RecordModel, op: Operation) -> bool {
    match op {
        Operation::Add | Operation::Multiply => m is Binary,
        Operation::Sqrt => m is Unary,
        Operation::Modexp => m is ModExp,
        Operation::Range => m is RangeCheck,
        Operation::AuthenticatedAdd => m is Authenticated,
        Operation::Dynamic | Operation::Precompiled => m is Single,
    }
}

// ---------------------------------------------------------------------------
// The layout registry: one spec encoding per operation family, shared by the
// encode contract and the decode contract, so the two paths cannot drift.
// ---------------------------------------------------------------------------

/// The journal bytes of one record.
pub open spec fn spec_encode_record(m: RecordModel) -> Seq<u8> {
    match m {
        RecordModel::Binary { a, b, result } => spec_i64_le(a) + spec_i64_le(b) + spec_i64_le(
            result,
        ),
        RecordModel::Unary { input, result } => spec_i64_le(input) + spec_i64_le(result),
        RecordModel::ModExp { base, exponent, modulus, result } => spec_u64_to_le_bytes(base)
            + spec_u64_to_le_bytes(exponent) + spec_u64_to_le_bytes(modulus)
            + spec_u64_to_le_bytes(result),
        RecordModel::RangeCheck { in_range, above_min, below_max, min, max } => spec_bool_word(
            in_range,
        ) + spec_bool_word(above_min) + spec_bool_word(below_max) + spec_u64_to_le_bytes(min)
            + spec_u64_to_le_bytes(max),
        RecordModel::Authenticated { a, b, result, timestamp, task_id } => spec_i64_le(a)
            + spec_i64_le(b) + spec_i64_le(result) + spec_u64_to_le_bytes(timestamp)
            + spec_str_field(task_id),
        RecordModel::Single { result } => spec_i64_le(result),
    }
}

/// Whether a record can be encoded: a task identifier must be short enough
/// for its four-byte length field.
pub open spec fn record_encodable(m: RecordModel) -> bool {
    match m {
        RecordModel::Authenticated { task_id, .. } => vstd::utf8::encode_utf8(task_id).len()
            <= u32::MAX,
        _ => true,
    }
}

/// The least number of journal bytes an operation's layout can occupy. For
/// the self-describing authenticated family this covers the fixed fields and
/// the length prefix; the task identifier adds to it.
pub open spec fn spec_min_width(op: Operation) -> nat {
    match op {
        Operation::Add | Operation::Multiply => 24,
        Operation::Sqrt => 16,
        Operation::Modexp => 32,
        Operation::Range => 28,
        Operation::AuthenticatedAdd => 36,
        Operation::Dynamic | Operation::Precompiled => 8,
    }
}

/// Executable minimum-width lookup.
pub fn journal_min_width(op: Operation) -> (r: usize)
    ensures
        r == spec_min_width(op),
{
    match op {
        Operation::Add | Operation::Multiply => 24,
        Operation::Sqrt => 16,
        Operation::Modexp => 32,
        Operation::Range => 28,
        Operation::AuthenticatedAdd => 36,
        Operation::Dynamic | Operation::Precompiled => 8,
    }
}

/// What decoding a journal must yield: the positional fields of the
/// operation's layout, or `TruncatedJournal` whenever the bytes end before
/// the layout does. Decoding never guesses: a journal is either long enough
/// and read exactly, or rejected.
pub open spec fn spec_decode(op: Operation, s: Seq<u8>) -> Result<RecordModel, HarnessError> {
    if s.len() < spec_min_width(op) {
        Err(
            HarnessError::TruncatedJournal {
                expected: spec_min_width(op) as u64,
                actual: s.len() as u64,
            },
        )
    } else {
        match op {
            Operation::Add | Operation::Multiply => Ok(
                RecordModel::Binary {
                    a: spec_i64_at(s, 0),
                    b: spec_i64_at(s, 8),
                    result: spec_i64_at(s, 16),
                },
            ),
            Operation::Sqrt => Ok(
                RecordModel::Unary { input: spec_i64_at(s, 0), result: spec_i64_at(s, 8) },
            ),
            Operation::Modexp => Ok(
                RecordModel::ModExp {
                    base: spec_u64_at(s, 0),
                    exponent: spec_u64_at(s, 8),
                    modulus: spec_u64_at(s, 16),
                    result: spec_u64_at(s, 24),
                },
            ),
            Operation::Range => Ok(
                RecordModel::RangeCheck {
                    in_range: spec_u32_at(s, 0) != 0,
                    above_min: spec_u32_at(s, 4) != 0,
                    below_max: spec_u32_at(s, 8) != 0,
                    min: spec_u64_at(s, 12),
                    max: spec_u64_at(s, 20),
                },
            ),
            Operation::AuthenticatedAdd => {
                let tlen = spec_u32_at(s, 32) as nat;
                let total = 36 + tlen + pad_len(tlen);
                if s.len() < total {
                    Err(
                        HarnessError::TruncatedJournal {
                            expected: total as u64,
                            actual: s.len() as u64,
                        },
                    )
                } else {
                    let task_bytes = s.subrange(36, 36 + tlen as int);
                    if vstd::utf8::valid_utf8(task_bytes) {
                        Ok(
                            RecordModel::Authenticated {
                                a: spec_i64_at(s, 0),
                                b: spec_i64_at(s, 8),
                                result: spec_i64_at(s, 16),
                                timestamp: spec_u64_at(s, 24),
                                task_id: vstd::utf8::decode_utf8(task_bytes),
                            },
                        )
                    } else {
                        // The task identifier is field 4 of this layout; one
                        // that is not text cannot have been committed by any
                        // execution image and is rejected.
                        Err(HarnessError::InvalidArgument { position: 4 })
                    }
                }
            },
            Operation::Dynamic | Operation::Precompiled => Ok(
                RecordModel::Single { result: spec_i64_at(s, 0) },
            ),
        }
    }
}

/// The model of a decode outcome.
pub open spec fn decode_outcome(r: Result<JournalRecord, HarnessError>) -> Result<
    RecordModel,
    HarnessError,
> {
    match r {
        Ok(rec) => Ok(rec@),
        Err(e) => Err(e),
    }
}

/// The salient result a record carries: the computed field of its family,
/// with a range outcome read as 1 or 0.
pub open spec fn spec_record_result(m: RecordModel) -> i64 {
    match m {
        RecordModel::Binary { result, .. } => result,
        RecordModel::Unary { result, .. } => result,
        RecordModel::ModExp { result, .. } => result as i64,
        RecordModel::RangeCheck { in_range, .. } => if in_range {
            1
        } else {
            0
        },
        RecordModel::Authenticated { result, .. } => result,
        RecordModel::Single { result } => result,
    }
}

/// Reads the salient result out of a decoded record, for reporting and for
/// comparison against a caller's expected value.
pub fn record_result(rec: &JournalRecord) -> (r: i64)
    ensures
        r == spec_record_result(rec@),
{
    match rec {
        JournalRecord::Binary { result, .. } => *result,
        JournalRecord::Unary { result, .. } => *result,
        JournalRecord::ModExp { result, .. } => *result as i64,
        JournalRecord::RangeCheck { in_range, .. } => {
            if *in_range {
                1
            } else {
                0
            }
        },
        JournalRecord::Authenticated { result, .. } => *result,
        JournalRecord::Single { result } => *result,
    }
}

// ---------------------------------------------------------------------------
// Executable encode
// ---------------------------------------------------------------------------

/// Encodes a record into its journal bytes, exactly as the operation's
/// execution image commits them.
pub fn encode_journal(rec: &JournalRecord) -> (r: Vec<u8>)
    requires
        record_encodable(rec@),
    ensures
        r@ == spec_encode_record(rec@),
{
    let mut out: Vec<u8> = Vec::new();
    match rec {
        JournalRecord::Binary { a, b, result } => {
            push_i64_le(&mut out, *a);
            push_i64_le(&mut out, *b);
            push_i64_le(&mut out, *result);
        },
        JournalRecord::Unary { input, result } => {
            push_i64_le(&mut out, *input);
            push_i64_le(&mut out, *result);
        },
        JournalRecord::ModExp { base, exponent, modulus, result } => {
            push_u64_le(&mut out, *base);
            push_u64_le(&mut out, *exponent);
            push_u64_le(&mut out, *modulus);
            push_u64_le(&mut out, *result);
        },
        JournalRecord::RangeCheck { in_range, above_min, below_max, min, max } => {
            push_bool_word(&mut out, *in_range);
            push_bool_word(&mut out, *above_min);
            push_bool_word(&mut out, *below_max);
            push_u64_le(&mut out, *min);
            push_u64_le(&mut out, *max);
        },
        JournalRecord::Authenticated { a, b, result, timestamp, task_id } => {
            push_i64_le(&mut out, *a);
            push_i64_le(&mut out, *b);
            push_i64_le(&mut out, *result);
            push_u64_le(&mut out, *timestamp);
            push_str_field(&mut out, task_id.as_str());
        },
        JournalRecord::Single { result } => {
            push_i64_le(&mut out, *result);
        },
    }
    out
}

// ---------------------------------------------------------------------------
// Executable decode
// ---------------------------------------------------------------------------

/// Decodes the journal committed by an operation's execution image. The
/// outcome is exactly `spec_decode` of the bytes: positional fields on
/// success, `TruncatedJournal` whenever the bytes end before the layout does.
pub fn decode_journal(op: Operation, bytes: &Vec<u8>) -> (r: Result<JournalRecord, HarnessError>)
    ensures
        decode_outcome(r) == spec_decode(op, bytes@),
{
    let min = journal_min_width(op);
    if bytes.len() < min {
        return Err(
            HarnessError::TruncatedJournal { expected: min as u64, actual: bytes.len() as u64 },
        );
    }
    match op {
        Operation::Add | Operation::Multiply => Ok(
            JournalRecord::Binary {
                a: read_i64_at(bytes, 0),
                b: read_i64_at(bytes, 8),
                result: read_i64_at(bytes, 16),
            },
        ),
        Operation::Sqrt => Ok(
            JournalRecord::Unary { input: read_i64_at(bytes, 0), result: read_i64_at(bytes, 8) },
        ),
        Operation::Modexp => Ok(
            JournalRecord::ModExp {
                base: read_u64_at(bytes, 0),
                exponent: read_u64_at(bytes, 8),
                modulus: read_u64_at(bytes, 16),
                result: read_u64_at(bytes, 24),
            },
        ),
        Operation::Range => Ok(
            JournalRecord::RangeCheck {
                in_range: read_u32_at(bytes, 0) != 0,
                above_min: read_u32_at(bytes, 4) != 0,
                below_max: read_u32_at(bytes, 8) != 0,
                min: read_u64_at(bytes, 12),
                max: read_u64_at(bytes, 20),
            },
        ),
        Operation::AuthenticatedAdd => decode_authenticated(bytes),
        Operation::Dynamic | Operation::Precompiled => Ok(
            JournalRecord::Single { result: read_i64_at(bytes, 0) },
        ),
    }
}

/// Decodes the self-describing authenticated record.
fn decode_authenticated(bytes: &Vec<u8>) -> (r: Result<JournalRecord, HarnessError>)
    requires
        bytes@.len() >= 36,
    ensures
        decode_outcome(r) == spec_decode(Operation::AuthenticatedAdd, bytes@),
{
    let tlen32 = read_u32_at(bytes, 32);
    let tlen = tlen32 as u64;
    let pad: u64 = if tlen % 4 == 0 {
        0
    } else {
        4 - tlen % 4
    };
    let total: u64 = 36 + tlen + pad;
    if (bytes.len() as u64) < total {
        return Err(HarnessError::TruncatedJournal { expected: total, actual: bytes.len() as u64 });
    }
    let task_slice = slice_subrange(bytes.as_slice(), 36, 36 + tlen32 as usize);
    let task_bytes = slice_to_vec(task_slice);
    let task_id = match crate::text::string_from_utf8(&task_bytes) {
        Some(s) => s,
        None => {
            return Err(HarnessError::InvalidArgument { position: 4 });
        },
    };
    Ok(
        JournalRecord::Authenticated {
            a: read_i64_at(bytes, 0),
            b: read_i64_at(bytes, 8),
            result: read_i64_at(bytes, 16),
            timestamp: read_u64_at(bytes, 24),
            task_id,
        },
    )
}

// ---------------------------------------------------------------------------
// Laws
// ---------------------------------------------------------------------------

/// Truncation detection: a journal shorter than the declared layout of its
/// operation is always rejected with `TruncatedJournal`, carrying the
/// expected and actual byte counts; it never decodes to a record.
pub proof fn lemma_truncated_journal_rejected(op: Operation, s: Seq<u8>)
    requires
        s.len() < spec_min_width(op),
    ensures
        spec_decode(op, s) == Err::<RecordModel, HarnessError>(
            HarnessError::TruncatedJournal {
                expected: spec_min_width(op) as u64,
                actual: s.len() as u64,
            },
        ),
{
}

/// Truncation detection for the self-describing authenticated record: bytes
/// that cover the fixed fields but end inside the task identifier are also
/// rejected with `TruncatedJournal`.
pub proof fn lemma_truncated_task_rejected(s: Seq<u8>)
    requires
        36 <= s.len(),
        s.len() < 36 + spec_u32_at(s, 32) + pad_len(spec_u32_at(s, 32) as nat),
    ensures
        spec_decode(Operation::AuthenticatedAdd, s) == Err::<RecordModel, HarnessError>(
            HarnessError::TruncatedJournal {
                expected: (36 + spec_u32_at(s, 32) + pad_len(spec_u32_at(s, 32) as nat)) as u64,
                actual: s.len() as u64,
            },
        ),
{
}

/// Layout determinism: for every operation and every encodable record of its
/// family, decoding the encoded journal reconstructs the record exactly.
pub proof fn lemma_encode_decode_round_trip(op: Operation, m: RecordModel)
    requires
        record_encodable(m),
        record_fits_operation(m, op),
    ensures
        spec_decode(op, spec_encode_record(m)) == Ok::<RecordModel, HarnessError>(m),
{
    lemma_auto_spec_u64_to_from_le_bytes();
    lemma_auto_spec_u32_to_from_le_bytes();
    let s = spec_encode_record(m);
    match m {
        RecordModel::Binary { a, b, result } => {
            assert(s.subrange(0, 8) =~= spec_i64_le(a));
            assert(s.subrange(8, 16) =~= spec_i64_le(b));
            assert(s.subrange(16, 24) =~= spec_i64_le(result));
            assert(a as u64 as i64 == a) by (bit_vector);
            assert(b as u64 as i64 == b) by (bit_vector);
            assert(result as u64 as i64 == result) by (bit_vector);
        },
        RecordModel::Unary { input, result } => {
            assert(s.subrange(0, 8) =~= spec_i64_le(input));
            assert(s.subrange(8, 16) =~= spec_i64_le(result));
            assert(input as u64 as i64 == input) by (bit_vector);
            assert(result as u64 as i64 == result) by (bit_vector);
        },
        RecordModel::ModExp { base, exponent, modulus, result } => {
            assert(s.subrange(0, 8) =~= spec_u64_to_le_bytes(base));
            assert(s.subrange(8, 16) =~= spec_u64_to_le_bytes(exponent));
            assert(s.subrange(16, 24) =~= spec_u64_to_le_bytes(modulus));
            assert(s.subrange(24, 32) =~= spec_u64_to_le_bytes(result));
        },
        RecordModel::RangeCheck { in_range, above_min, below_max, min, max } => {
            assert(s.subrange(0, 4) =~= spec_bool_word(in_range));
            assert(s.subrange(4, 8) =~= spec_bool_word(above_min));
            assert(s.subrange(8, 12) =~= spec_bool_word(below_max));
            assert(s.subrange(12, 20) =~= spec_u64_to_le_bytes(min));
            assert(s.subrange(20, 28) =~= spec_u64_to_le_bytes(max));
        },
        RecordModel::Authenticated { a, b, result, timestamp, task_id } => {
            let task_bytes = vstd::utf8::encode_utf8(task_id);
            vstd::utf8::encode_utf8_valid_utf8(task_id);
            vstd::utf8::encode_utf8_decode_utf8(task_id);
            assert(s.subrange(0, 8) =~= spec_i64_le(a));
            assert(s.subrange(8, 16) =~= spec_i64_le(b));
            assert(s.subrange(16, 24) =~= spec_i64_le(result));
            assert(s.subrange(24, 32) =~= spec_u64_to_le_bytes(timestamp));
            assert(s.subrange(32, 36) =~= spec_u32_to_le_bytes(task_bytes.len() as u32));
            assert(a as u64 as i64 == a) by (bit_vector);
            assert(b as u64 as i64 == b) by (bit_vector);
            assert(result as u64 as i64 == result) by (bit_vector);
            let tlen = spec_u32_at(s, 32) as nat;
            assert(tlen == task_bytes.len());
            assert(s.len() == 36 + tlen + pad_len(tlen));
            assert(s.subrange(36, 36 + tlen as int) =~= task_bytes);
        },
        RecordModel::Single { result } => {
            assert(s.subrange(0, 8) =~= spec_i64_le(result));
            assert(result as u64 as i64 == result) by (bit_vector);
        },
    }
}

} // verus!
