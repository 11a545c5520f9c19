use vstd::prelude::*;

use vstd::slice::{slice_subrange, slice_to_vec};

use crate::errors::HarnessError;
use crate::ops::{operation_name, spec_operation_name, Operation};
use crate::text::{ascii_bytes_of, ascii_chars_of, bytes_are_ascii, spec_dec_chars, u64_to_string};

verus! {

// ---------------------------------------------------------------------------
// Hexadecimal text
// ---------------------------------------------------------------------------

/// The lowercase hex digit for a value below 16.
pub open spec fn hex_digit_char(v: u8) -> char {
    if v < 10 {
        (48 + v) as char
    } else {
        (87 + v) as char
    }
}

/// The lowercase hex text of a byte sequence, two digits per byte.
pub open spec fn spec_hex_chars(bytes: Seq<u8>) -> Seq<char>
    decreases bytes.len(),
{
    if bytes.len() == 0 {
        Seq::empty()
    } else {
        seq![hex_digit_char(bytes[0] / 16), hex_digit_char(bytes[0] % 16)] + spec_hex_chars(
            bytes.drop_first(),
        )
    }
}

/// Whether a character is a hex digit of either case.
pub open spec fn is_hex_digit(c: char) -> bool {
    (48 <= c as u32 && c as u32 <= 57) || (97 <= c as u32 && c as u32 <= 102) || (65 <= c as u32
        && c as u32 <= 70)
}

/// The value of one hex digit.
pub open spec fn hex_digit_val(c: char) -> u8 {
    if 48 <= c as u32 && c as u32 <= 57 {
        (c as u32 - 48) as u8
    } else if 97 <= c as u32 && c as u32 <= 102 {
        (c as u32 - 87) as u8
    } else {
        (c as u32 - 55) as u8
    }
}

/// Every character is a hex digit.
pub open spec fn all_hex_digits(s: Seq<char>) -> bool {
    forall|i: int| 0 <= i < s.len() ==> is_hex_digit(#[trigger] s[i])
}

/// The bytes of an even-length hex text, one per digit pair.
pub open spec fn spec_hex_bytes(s: Seq<char>) -> Seq<u8>
    decreases s.len(),
{
    if s.len() < 2 {
        Seq::empty()
    } else {
        seq![(16 * hex_digit_val(s[0]) + hex_digit_val(s[1])) as u8] + spec_hex_bytes(
            s.subrange(2, s.len() as int),
        )
    }
}

/// Hex text is lossless: decoding the encoding of any byte sequence gives
/// the bytes back, and the encoding is always even-length lowercase digits.
pub proof fn lemma_hex_round_trip(bytes: Seq<u8>)
    ensures
        spec_hex_chars(bytes).len() == 2 * bytes.len(),
        all_hex_digits(spec_hex_chars(bytes)),
        spec_hex_bytes(spec_hex_chars(bytes)) == bytes,
    decreases bytes.len(),
{
    if bytes.len() > 0 {
        lemma_hex_round_trip(bytes.drop_first());
        let s = spec_hex_chars(bytes);
        let b = bytes[0];
        let c0 = hex_digit_char(b / 16);
        let c1 = hex_digit_char(b % 16);
        assert(is_hex_digit(c0) && hex_digit_val(c0) == b / 16);
        assert(is_hex_digit(c1) && hex_digit_val(c1) == b % 16);
        assert(s.subrange(2, s.len() as int) =~= spec_hex_chars(bytes.drop_first()));
        assert(16 * (b / 16) + b % 16 == b);
        assert(spec_hex_bytes(s) =~= bytes);
        assert forall|i: int| 0 <= i < s.len() implies is_hex_digit(#[trigger] s[i]) by {
            if i >= 2 {
                assert(s[i] == spec_hex_chars(bytes.drop_first())[i - 2]);
            }
        }
    }
}

/// Hex digits are ASCII.
pub proof fn lemma_hex_chars_ascii(bytes: Seq<u8>)
    ensures
        vstd::utf8::is_ascii_chars(spec_hex_chars(bytes)),
    decreases bytes.len(),
{
    if bytes.len() > 0 {
        lemma_hex_chars_ascii(bytes.drop_first());
        let s = spec_hex_chars(bytes);
        assert forall|i: int| 0 <= i < s.len() implies (#[trigger] s[i] as u32) < 0x80 by {
            if i >= 2 {
                assert(s[i] == spec_hex_chars(bytes.drop_first())[i - 2]);
            }
        }
    }
}

/// Turns bytes into their lowercase hex text.
///
/// Relies on `hex::encode`: two lowercase digits per input byte, high
/// nibble first.
#[verifier::external_body]
pub(crate) fn hex_encode(bytes: &Vec<u8>) -> (r: String)
    ensures
        r@ == spec_hex_chars(bytes@),
{
    hex::encode(bytes)
}

/// Turns hex text back into bytes.
///
/// Relies on `hex::decode`: it accepts exactly the even-length strings of
/// hex digits (either case) and inverts the pairing used by `hex::encode`.
#[verifier::external_body]
pub(crate) fn hex_decode(text: &str) -> (r: Option<Vec<u8>>)
    ensures
        (r is Some) <==> (text@.len() % 2 == 0 && all_hex_digits(text@)),
        r matches Some(v) ==> v@ == spec_hex_bytes(text@),
{
    match hex::decode(text) {
        Ok(v) => Some(v),
        Err(_) => None,
    }
}

// ---------------------------------------------------------------------------
// Whitespace trimming for hex-text artifacts
// ---------------------------------------------------------------------------

/// ASCII whitespace.
pub open spec fn is_ws(b: u8) -> bool {
    b == 32 || b == 10 || b == 13 || b == 9
}

/// A byte sequence with its leading whitespace removed.
pub open spec fn spec_trim_start(s: Seq<u8>) -> Seq<u8>
    decreases s.len(),
{
    if s.len() > 0 && is_ws(s[0]) {
        spec_trim_start(s.drop_first())
    } else {
        s
    }
}

/// A byte sequence with its trailing whitespace removed.
pub open spec fn spec_trim_end(s: Seq<u8>) -> Seq<u8>
    decreases s.len(),
{
    if s.len() > 0 && is_ws(s.last()) {
        spec_trim_end(s.drop_last())
    } else {
        s
    }
}

/// A byte sequence with whitespace removed from both ends.
pub open spec fn spec_trim(s: Seq<u8>) -> Seq<u8> {
    spec_trim_end(spec_trim_start(s))
}

proof fn lemma_trim_start_at(s: Seq<u8>, i: int)
    requires
        0 <= i <= s.len(),
        forall|j: int| 0 <= j < i ==> is_ws(#[trigger] s[j]),
        i == s.len() || !is_ws(s[i]),
    ensures
        spec_trim_start(s) == s.subrange(i, s.len() as int),
    decreases i,
{
    if i == 0 {
        assert(s.subrange(0, s.len() as int) =~= s);
    } else {
        let rest = s.drop_first();
        assert(rest =~= s.subrange(1, s.len() as int));
        lemma_trim_start_at(rest, i - 1);
        assert(rest.subrange(i - 1, rest.len() as int) =~= s.subrange(i, s.len() as int));
    }
}

proof fn lemma_trim_end_at(s: Seq<u8>, i: int)
    requires
        0 <= i <= s.len(),
        forall|j: int| i <= j < s.len() ==> is_ws(#[trigger] s[j]),
        i == 0 || !is_ws(s[i - 1]),
    ensures
        spec_trim_end(s) == s.subrange(0, i),
    decreases s.len() - i,
{
    if i == s.len() {
        assert(s.subrange(0, s.len() as int) =~= s);
    } else {
        let rest = s.drop_last();
        assert(rest =~= s.subrange(0, s.len() - 1));
        lemma_trim_end_at(rest, i);
        assert(rest.subrange(0, i) =~= s.subrange(0, i));
    }
}

/// Checks a byte for ASCII whitespace.
fn ws_byte(b: u8) -> (r: bool)
    ensures
        r == is_ws(b),
{
    b == 32 || b == 10 || b == 13 || b == 9
}

/// Removes ASCII whitespace from both ends.
pub fn trim_ascii_ws(bytes: &Vec<u8>) -> (r: Vec<u8>)
    ensures
        r@ == spec_trim(bytes@),
{
    let n = bytes.len();
    let mut start: usize = 0;
    while start < n && ws_byte(bytes[start])
        invariant
            start <= n,
            n == bytes@.len(),
            forall|j: int| 0 <= j < start ==> is_ws(#[trigger] bytes@[j]),
        decreases n - start,
    {
        start = start + 1;
    }
    let mut end: usize = n;
    while end > start && ws_byte(bytes[end - 1])
        invariant
            start <= end <= n,
            n == bytes@.len(),
            forall|j: int| end <= j < n ==> is_ws(#[trigger] bytes@[j]),
        decreases end,
    {
        end = end - 1;
    }
    proof {
        lemma_trim_start_at(bytes@, start as int);
        let trimmed = bytes@.subrange(start as int, n as int);
        lemma_trim_end_at(trimmed, end - start);
        assert(trimmed.subrange(0, end - start) =~= bytes@.subrange(start as int, end as int));
    }
    slice_to_vec(slice_subrange(bytes.as_slice(), start, end))
}

// ---------------------------------------------------------------------------
// Artifact files
// ---------------------------------------------------------------------------

/// The two on-disk forms of a proof artifact.
#[derive(Clone, Copy, Debug, PartialEq, Eq, Structural)]
pub enum ArtifactFormat {
    /// The raw serialized proof bytes, in a `.bin` file.
    Binary,
    /// A lowercase hex rendering of the same bytes, in any other file.
    Hex,
}

/// The format implied by a file name: `.bin` means raw bytes, anything
/// else is read as hex text.
pub open spec fn spec_detect_format(name: Seq<char>) -> ArtifactFormat {
    if name.len() >= 4 && name.subrange(name.len() - 4, name.len() as int) == ".bin"@ {
        ArtifactFormat::Binary
    } else {
        ArtifactFormat::Hex
    }
}

/// Detects an artifact file's format from its name.
pub fn detect_format(file_name: &str) -> (r: ArtifactFormat)
    ensures
        r == spec_detect_format(file_name@),
{
    proof {
        reveal_strlit(".bin");
    }
    let n = file_name.unicode_len();
    if n < 4 {
        return ArtifactFormat::Hex;
    }
    let tail_matches = file_name.get_char(n - 4) == '.' && file_name.get_char(n - 3) == 'b'
        && file_name.get_char(n - 2) == 'i' && file_name.get_char(n - 1) == 'n';
    proof {
        reveal_strlit(".bin");
        let name = file_name@;
        let tail = name.subrange(name.len() - 4, name.len() as int);
        if tail_matches {
            assert(tail =~= ".bin"@);
        } else if tail == ".bin"@ {
            assert(tail[0] == '.' && tail[1] == 'b' && tail[2] == 'i' && tail[3] == 'n');
            assert(false);
        }
    }
    if tail_matches {
        ArtifactFormat::Binary
    } else {
        ArtifactFormat::Hex
    }
}

/// The extension of each artifact format.
pub open spec fn spec_format_ext(format: ArtifactFormat) -> Seq<char> {
    match format {
        ArtifactFormat::Binary => ".bin"@,
        ArtifactFormat::Hex => ".hex"@,
    }
}

/// The deterministic artifact file name: the operation, an optional tag of
/// the salient arguments, and the invocation timestamp, under the format's
/// extension.
pub open spec fn spec_proof_file_name(
    op: Operation,
    args_tag: Seq<char>,
    timestamp: u64,
    format: ArtifactFormat,
) -> Seq<char> {
    "proof_"@ + spec_operation_name(op) + (if args_tag.len() > 0 {
        "_"@ + args_tag
    } else {
        Seq::empty()
    }) + "_"@ + spec_dec_chars(timestamp as nat) + spec_format_ext(format)
}

/// Builds the artifact file name for one invocation.
pub fn proof_file_name(op: Operation, args_tag: &str, timestamp: u64, format: ArtifactFormat) -> (r:
    String)
    ensures
        r@ == spec_proof_file_name(op, args_tag@, timestamp, format),
{
    let mut out = String::new();
    out.append("proof_");
    out.append(operation_name(op));
    if args_tag.unicode_len() > 0 {
        out.append("_");
        out.append(args_tag);
    }
    out.append("_");
    let ts = u64_to_string(timestamp);
    out.append(ts.as_str());
    match format {
        ArtifactFormat::Binary => out.append(".bin"),
        ArtifactFormat::Hex => out.append(".hex"),
    }
    proof {
        assert(out@ =~= spec_proof_file_name(op, args_tag@, timestamp, format));
    }
    out
}

/// Naming and detection agree: the format chosen when an artifact is
/// saved is the format detected when its file name is read back.
pub proof fn lemma_file_name_format_round_trip(
    op: Operation,
    args_tag: Seq<char>,
    timestamp: u64,
    format: ArtifactFormat,
)
    ensures
        spec_detect_format(spec_proof_file_name(op, args_tag, timestamp, format)) == format,
{
    reveal_strlit(".bin");
    reveal_strlit(".hex");
    let name = spec_proof_file_name(op, args_tag, timestamp, format);
    let ext = spec_format_ext(format);
    assert(ext.len() == 4);
    assert(name.subrange(name.len() - 4, name.len() as int) =~= ext);
    match format {
        ArtifactFormat::Binary => {
        },
        ArtifactFormat::Hex => {
            assert(ext[3] == 'x' && ".bin"@[3] == 'n');
            assert(ext != ".bin"@);
        },
    }
}

/// The file contents of a proof artifact in a given format.
pub open spec fn spec_encode_artifact(proof_bytes: Seq<u8>, format: ArtifactFormat) -> Seq<u8> {
    match format {
        ArtifactFormat::Binary => proof_bytes,
        ArtifactFormat::Hex => ascii_bytes_of(spec_hex_chars(proof_bytes)),
    }
}

/// Renders serialized proof bytes into the chosen on-disk form.
pub fn encode_artifact(proof_bytes: &Vec<u8>, format: ArtifactFormat) -> (r: Vec<u8>)
    ensures
        r@ == spec_encode_artifact(proof_bytes@, format),
{
    match format {
        ArtifactFormat::Binary => proof_bytes.clone(),
        ArtifactFormat::Hex => {
            let text = hex_encode(proof_bytes);
            let text_str = text.as_str();
            proof {
                lemma_hex_chars_ascii(proof_bytes@);
                vstd::string::is_ascii_spec_bytes(text_str);
                crate::text::lemma_ascii_chars_bytes(text@);
            }
            let bytes = text_str.as_bytes_vec();
            proof {
                assert(bytes@ =~= ascii_bytes_of(spec_hex_chars(proof_bytes@)));
            }
            bytes
        },
    }
}

/// What reading an artifact file back must yield: raw bytes pass through;
/// hex text is trimmed of surrounding whitespace and must be even-length
/// ASCII hex, else the artifact is rejected.
pub open spec fn spec_decode_artifact(contents: Seq<u8>, format: ArtifactFormat) -> Result<
    Seq<u8>,
    HarnessError,
> {
    match format {
        ArtifactFormat::Binary => Ok(contents),
        ArtifactFormat::Hex => {
            let trimmed = spec_trim(contents);
            if bytes_are_ascii(trimmed) && trimmed.len() % 2 == 0 && all_hex_digits(
                ascii_chars_of(trimmed),
            ) {
                Ok(spec_hex_bytes(ascii_chars_of(trimmed)))
            } else {
                Err(HarnessError::InvalidArgument { position: 0 })
            }
        },
    }
}

/// Reads an artifact file's contents back into the serialized proof bytes.
pub fn decode_artifact(contents: &Vec<u8>, format: ArtifactFormat) -> (r: Result<
    Vec<u8>,
    HarnessError,
>)
    ensures
        (r matches Ok(v) ==> spec_decode_artifact(contents@, format) == Ok::<
            Seq<u8>,
            HarnessError,
        >(v@)),
        (r matches Err(e) ==> spec_decode_artifact(contents@, format) == Err::<
            Seq<u8>,
            HarnessError,
        >(e)),
{
    match format {
        ArtifactFormat::Binary => Ok(contents.clone()),
        ArtifactFormat::Hex => {
            let trimmed = trim_ascii_ws(contents);
            let mut k: usize = 0;
            let mut ascii_ok = true;
            while k < trimmed.len()
                invariant
                    k <= trimmed@.len(),
                    ascii_ok == (forall|i: int| 0 <= i < k ==> trimmed@[i] < 128),
                decreases trimmed@.len() - k,
            {
                if trimmed[k] >= 128 {
                    ascii_ok = false;
                }
                k = k + 1;
            }
            if !ascii_ok {
                return Err(HarnessError::InvalidArgument { position: 0 });
            }
            proof {
                assert(bytes_are_ascii(trimmed@));
                crate::text::lemma_ascii_bytes_chars(trimmed@);
            }
            let text = crate::text::string_from_ascii(&trimmed);
            match hex_decode(text.as_str()) {
                Some(v) => Ok(v),
                None => Err(HarnessError::InvalidArgument { position: 0 }),
            }
        },
    }
}

/// Artifact persistence is lossless: decoding an encoded artifact, in
/// either format, returns the serialized proof bytes unchanged.
pub proof fn lemma_artifact_round_trip(proof_bytes: Seq<u8>, format: ArtifactFormat)
    ensures
        spec_decode_artifact(spec_encode_artifact(proof_bytes, format), format) == Ok::<
            Seq<u8>,
            HarnessError,
        >(proof_bytes),
{
    match format {
        ArtifactFormat::Binary => {
        },
        ArtifactFormat::Hex => {
            let chars = spec_hex_chars(proof_bytes);
            lemma_hex_round_trip(proof_bytes);
            lemma_hex_chars_ascii(proof_bytes);
            crate::text::lemma_ascii_chars_bytes(chars);
            let stored = ascii_bytes_of(chars);
            assert forall|j: int| 0 <= j < stored.len() implies !is_ws(#[trigger] stored[j]) by {
                assert(is_hex_digit(chars[j]));
                assert(stored[j] == chars[j] as u8);
            }
            lemma_trim_start_at(stored, 0);
            assert(stored.subrange(0, stored.len() as int) =~= stored);
            lemma_trim_end_at(stored, stored.len() as int);
            assert(spec_trim(stored) == stored);
            assert(ascii_chars_of(stored) =~= chars);
        },
    }
}

} // verus!
