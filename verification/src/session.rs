use vstd::prelude::*;

use vstd::bytes::{lemma_auto_spec_u64_to_from_le_bytes, spec_u64_to_le_bytes};
use vstd::slice::{slice_subrange, slice_to_vec};

use crate::errors::HarnessError;
use crate::journal::{push_u64_le, read_u64_at, spec_u64_at};
use crate::text::{i64_to_string, spec_dec_chars, spec_int_chars, u64_to_string};

verus! {

/// The byte width of a session identifier.
pub const SESSION_ID_LEN: usize = 16;

/// The byte width of the whole session prefix: identifier plus nonce.
pub const SESSION_PREFIX_LEN: usize = 24;

/// The session prefix bytes: the 16-byte identifier, then the nonce.
pub open spec fn spec_session_prefix(session_id: Seq<u8>, nonce: u64) -> Seq<u8> {
    session_id + spec_u64_to_le_bytes(nonce)
}

/// Builds the fixed-width session prefix. Any identifier that is not
/// exactly 16 bytes is rejected with `InvalidSessionId`.
pub fn encode_session_prefix(session_id: &Vec<u8>, nonce: u64) -> (r: Result<
    Vec<u8>,
    HarnessError,
>)
    ensures
        session_id@.len() != 16 <==> (r matches Err(HarnessError::InvalidSessionId {
            actual,
        }) && actual == session_id@.len()),
        session_id@.len() == 16 ==> (r matches Ok(v) && v@ == spec_session_prefix(
            session_id@,
            nonce,
        ) && v@.len() == 24),
{
    if session_id.len() != SESSION_ID_LEN {
        return Err(HarnessError::InvalidSessionId { actual: session_id.len() });
    }
    let mut out: Vec<u8> = Vec::new();
    out.extend_from_slice(session_id.as_slice());
    push_u64_le(&mut out, nonce);
    proof {
        lemma_auto_spec_u64_to_from_le_bytes();
        assert(out@ =~= spec_session_prefix(session_id@, nonce));
    }
    Ok(out)
}

/// Binds session context into a request payload: the identifier and nonce
/// become a fixed-width prefix before the computation fields, so a decoder
/// can skip them unambiguously.
pub fn bind_session(session_id: &Vec<u8>, nonce: u64, payload: &Vec<u8>) -> (r: Result<
    Vec<u8>,
    HarnessError,
>)
    ensures
        session_id@.len() != 16 <==> (r matches Err(HarnessError::InvalidSessionId {
            actual,
        }) && actual == session_id@.len()),
        session_id@.len() == 16 ==> (r matches Ok(v) && v@ == spec_session_prefix(
            session_id@,
            nonce,
        ) + payload@),
{
    let mut out = match encode_session_prefix(session_id, nonce) {
        Ok(prefix) => prefix,
        Err(e) => {
            return Err(e);
        },
    };
    out.extend_from_slice(payload.as_slice());
    Ok(out)
}

/// Splits a buffer into its session prefix and the computation bytes that
/// follow. Buffers shorter than the prefix are rejected as truncated.
pub fn split_session_prefix(bytes: &Vec<u8>) -> (r: Result<(Vec<u8>, u64, Vec<u8>), HarnessError>)
    ensures
        bytes@.len() < 24 <==> (r matches Err(HarnessError::TruncatedJournal {
            expected: 24u64,
            actual,
        }) && actual == bytes@.len()),
        bytes@.len() >= 24 ==> (r matches Ok(parts) && parts.0@ == bytes@.subrange(0, 16)
            && parts.1 == spec_u64_at(bytes@, 16) && parts.2@ == bytes@.subrange(
            24,
            bytes@.len() as int,
        )),
{
    let n = bytes.len();
    if n < SESSION_PREFIX_LEN {
        return Err(HarnessError::TruncatedJournal { expected: 24, actual: n as u64 });
    }
    let session_id = slice_to_vec(slice_subrange(bytes.as_slice(), 0, SESSION_ID_LEN));
    let nonce = read_u64_at(bytes, SESSION_ID_LEN);
    let rest = slice_to_vec(slice_subrange(bytes.as_slice(), SESSION_PREFIX_LEN, n));
    Ok((session_id, nonce, rest))
}

/// Binding is lossless: splitting a prefixed buffer recovers the session
/// identifier, the nonce, and the computation bytes exactly.
pub proof fn lemma_session_prefix_round_trip(session_id: Seq<u8>, nonce: u64, rest: Seq<u8>)
    requires
        session_id.len() == 16,
    ensures
        ({
            let whole = spec_session_prefix(session_id, nonce) + rest;
            &&& whole.subrange(0, 16) == session_id
            &&& spec_u64_at(whole, 16) == nonce
            &&& whole.subrange(24, whole.len() as int) == rest
        }),
{
    lemma_auto_spec_u64_to_from_le_bytes();
    let whole = spec_session_prefix(session_id, nonce) + rest;
    assert(whole.subrange(0, 16) =~= session_id);
    assert(whole.subrange(16, 24) =~= spec_u64_to_le_bytes(nonce));
    assert(whole.subrange(24, whole.len() as int) =~= rest);
}

/// Decodes a journal that carries the fixed-width session prefix: the
/// 16-byte identifier and the nonce are split off first, and the
/// computation fields are decoded from what follows, under the operation's
/// layout. Truncation anywhere — in the prefix or in the fields — is
/// rejected, never padded.
pub fn decode_with_session(op: crate::ops::Operation, bytes: &Vec<u8>) -> (r: Result<
    (Vec<u8>, u64, crate::journal::JournalRecord),
    HarnessError,
>)
    ensures
        bytes@.len() < 24 ==> (r matches Err(HarnessError::TruncatedJournal {
            expected: 24u64,
            actual,
        }) && actual == bytes@.len()),
        bytes@.len() >= 24 ==> ({
            let rest = bytes@.subrange(24, bytes@.len() as int);
            match crate::journal::spec_decode(op, rest) {
                Ok(m) => r matches Ok(p) && p.0@ == bytes@.subrange(0, 16) && p.1 == spec_u64_at(
                    bytes@,
                    16,
                ) && p.2@ == m,
                Err(e) => r == Err::<(Vec<u8>, u64, crate::journal::JournalRecord), HarnessError>(
                    e,
                ),
            }
        }),
{
    let (session_id, nonce, rest) = match split_session_prefix(bytes) {
        Ok(parts) => parts,
        Err(e) => {
            return Err(e);
        },
    };
    match crate::journal::decode_journal(op, &rest) {
        Ok(record) => Ok((session_id, nonce, record)),
        Err(e) => Err(e),
    }
}

/// The audit task identifier: timestamp and operands joined under the
/// `auth` prefix, ending with the caller's key reference.
pub open spec fn spec_task_id(timestamp: u64, a: i64, b: i64, key_id: Seq<char>) -> Seq<char> {
    "auth_"@ + spec_dec_chars(timestamp as nat) + "_"@ + spec_int_chars(a as int) + "_"@
        + spec_int_chars(b as int) + "_"@ + key_id
}

/// Builds the audit task identifier for an authenticated request.
pub fn make_task_id(timestamp: u64, a: i64, b: i64, key_id: &str) -> (r: String)
    ensures
        r@ == spec_task_id(timestamp, a, b, key_id@),
{
    let mut out = String::new();
    out.append("auth_");
    let ts = u64_to_string(timestamp);
    out.append(ts.as_str());
    out.append("_");
    let sa = i64_to_string(a);
    out.append(sa.as_str());
    out.append("_");
    let sb = i64_to_string(b);
    out.append(sb.as_str());
    out.append("_");
    out.append(key_id);
    proof {
        assert(out@ =~= spec_task_id(timestamp, a, b, key_id@));
    }
    out
}

} // verus!
