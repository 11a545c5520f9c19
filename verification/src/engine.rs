use vstd::prelude::*;

use crate::artifact::{
    decode_artifact, detect_format, encode_artifact, proof_file_name, spec_decode_artifact,
    spec_detect_format, spec_encode_artifact, spec_proof_file_name, ArtifactFormat,
};
use crate::errors::HarnessError;
use crate::journal::{decode_journal, spec_decode, JournalRecord};
use crate::ops::Operation;
use crate::provision::ImageIdentity;

verus! {

// ---------------------------------------------------------------------------
// The proving engine's types and calls, behind trusted declarations. The
// engine itself — execution, proof construction, proof verification and the
// content digest — is a black box; everything the harness concludes from it
// is concluded from the values it hands back. Acceptance of an image, of a
// receipt by the serializer, and of bytes by the deserializer are functions
// of their inputs alone, so each is given a name; the verification verdict
// is not a function of the receipt alone, so it gets no name and no
// promise.
// ---------------------------------------------------------------------------

/// The engine's proof artifact: a receipt holding the journal and the seal.
#[verifier::external_type_specification]
#[verifier::external_body]
pub struct ExReceipt(risc0_zkvm::Receipt);

/// The content-derived identifier of an execution image: a function of the
/// image bytes alone.
pub uninterp spec fn image_digest_of(elf: Seq<u8>) -> Seq<u8>;

/// Whether the engine can parse a byte string as an execution image.
pub uninterp spec fn engine_accepts_image(elf: Seq<u8>) -> bool;

/// Relies on `risc0_zkvm::compute_image_id`: whether the image parses, and
/// its 32-byte digest when it does, are computed from the bytes alone.
#[verifier::external_body]
fn compute_image_digest(elf: &Vec<u8>) -> (r: Option<Vec<u8>>)
    ensures
        (r is Some) <==> engine_accepts_image(elf@),
        r matches Some(d) ==> d@ == image_digest_of(elf@) && d@.len() == 32,
{
    match risc0_zkvm::compute_image_id(elf.as_slice()) {
        Ok(d) => Some(d.as_bytes().to_vec()),
        Err(_) => None,
    }
}

/// The journal bytes a receipt carries.
pub uninterp spec fn journal_of(receipt: risc0_zkvm::Receipt) -> Seq<u8>;

/// Relies on the public `journal` field of `risc0_zkvm::Receipt`: hands out
/// a copy of the committed journal bytes, a projection of the receipt.
#[verifier::external_body]
fn receipt_journal_bytes(receipt: &risc0_zkvm::Receipt) -> (r: Vec<u8>)
    ensures
        r@ == journal_of(*receipt),
{
    receipt.journal.bytes.clone()
}

/// Relies on `risc0_zkvm::Receipt::verify`: the engine checks the seal
/// against the 32-byte image identifier. The verdict is the engine's own,
/// and these contracts claim nothing about when it accepts.
#[verifier::external_body]
fn receipt_verify(receipt: &risc0_zkvm::Receipt, image_digest: &Vec<u8>) -> bool {
    match risc0_zkvm::Digest::try_from(image_digest.as_slice()) {
        Ok(d) => receipt.verify(d).is_ok(),
        Err(_) => false,
    }
}

/// Whether the serializer accepts a receipt.
pub uninterp spec fn receipt_serializes(receipt: risc0_zkvm::Receipt) -> bool;

/// Relies on `bincode::serialize` for `risc0_zkvm::Receipt`: acceptance is
/// a function of the receipt value alone.
#[verifier::external_body]
fn receipt_to_bytes(receipt: &risc0_zkvm::Receipt) -> (r: Option<Vec<u8>>)
    ensures
        (r is Some) <==> receipt_serializes(*receipt),
{
    bincode::serialize(receipt).ok()
}

/// Whether bytes deserialize to a receipt.
pub uninterp spec fn receipt_bytes_accepted(bytes: Seq<u8>) -> bool;

/// Relies on `bincode::deserialize` for `risc0_zkvm::Receipt`: acceptance
/// is a function of the bytes alone; malformed bytes are rejected.
#[verifier::external_body]
fn receipt_from_bytes(bytes: &Vec<u8>) -> (r: Option<risc0_zkvm::Receipt>)
    ensures
        (r is Some) <==> receipt_bytes_accepted(bytes@),
{
    bincode::deserialize(bytes.as_slice()).ok()
}

// ---------------------------------------------------------------------------
// Verified orchestration around the engine
// ---------------------------------------------------------------------------

/// Resolves the deferred identity of a dynamically provisioned image from
/// its bytes: success exactly when the engine accepts the image, and then
/// the identity is the 32-byte content digest of exactly these bytes.
pub fn resolve_image_identity(elf: &Vec<u8>) -> (r: Result<ImageIdentity, HarnessError>)
    ensures
        (r is Ok) <==> engine_accepts_image(elf@),
        r matches Ok(id) ==> (id matches ImageIdentity::Resolved(d) && d@ == image_digest_of(elf@)
            && d@.len() == 32),
        r matches Err(e) ==> e is ProvingFailed,
{
    match compute_image_digest(elf) {
        Some(d) => Ok(ImageIdentity::Resolved(d)),
        None => Err(
            HarnessError::ProvingFailed {
                message: String::from_str("the engine rejected the execution image"),
            },
        ),
    }
}

/// Image identity stability: the digest is a function of the image bytes
/// alone, so the same bytes always resolve to the same identifier, and
/// images whose identifiers differ cannot hold the same bytes.
pub proof fn lemma_image_digest_content_addressed(bytes1: Seq<u8>, bytes2: Seq<u8>)
    ensures
        bytes1 == bytes2 ==> image_digest_of(bytes1) == image_digest_of(bytes2),
        image_digest_of(bytes1) != image_digest_of(bytes2) ==> bytes1 != bytes2,
{
}

/// A proof artifact ready to persist: its deterministic file name, the
/// serialized receipt, and the file bytes in the chosen format.
pub struct ProofArtifact {
    pub file_name: String,
    pub serialized: Vec<u8>,
    pub file_bytes: Vec<u8>,
}

/// Serializes a receipt and renders it for persistence: success exactly
/// when the serializer accepts the receipt, and then the file bytes are
/// the chosen encoding of the serialized receipt, under the deterministic
/// file name.
pub fn render_artifact(
    receipt: &risc0_zkvm::Receipt,
    op: Operation,
    args_tag: &str,
    timestamp: u64,
    format: ArtifactFormat,
) -> (r: Result<ProofArtifact, HarnessError>)
    ensures
        (r is Ok) <==> receipt_serializes(*receipt),
        r matches Ok(a) ==> (a.file_name@ == spec_proof_file_name(op, args_tag@, timestamp, format)
            && a.file_bytes@ == spec_encode_artifact(a.serialized@, format)),
        r matches Err(e) ==> e is ProvingFailed,
{
    match receipt_to_bytes(receipt) {
        Some(serialized) => {
            let file_name = proof_file_name(op, args_tag, timestamp, format);
            let file_bytes = encode_artifact(&serialized, format);
            Ok(ProofArtifact { file_name, serialized, file_bytes })
        },
        None => Err(
            HarnessError::ProvingFailed {
                message: String::from_str("the proof artifact could not be serialized"),
            },
        ),
    }
}

/// Reads a persisted artifact back into a receipt, choosing the decoding
/// from the file name. A file the format decoder rejects is answered with
/// that decoder's error; decoded bytes yield a receipt exactly when the
/// deserializer accepts them.
pub fn load_artifact(file_name: &str, contents: &Vec<u8>) -> (r: Result<
    risc0_zkvm::Receipt,
    HarnessError,
>)
    ensures
        (spec_decode_artifact(contents@, spec_detect_format(file_name@)) matches Err(e) ==> r
            == Err::<risc0_zkvm::Receipt, HarnessError>(e)),
        (spec_decode_artifact(contents@, spec_detect_format(file_name@)) matches Ok(v) ==> {
            &&& (r is Ok) <==> receipt_bytes_accepted(v)
            &&& !receipt_bytes_accepted(v) ==> r == Err::<risc0_zkvm::Receipt, HarnessError>(
                HarnessError::InvalidArgument { position: 0 },
            )
        }),
{
    let format = detect_format(file_name);
    let serialized = match decode_artifact(contents, format) {
        Ok(v) => v,
        Err(e) => {
            return Err(e);
        },
    };
    match receipt_from_bytes(&serialized) {
        Some(receipt) => Ok(receipt),
        None => Err(HarnessError::InvalidArgument { position: 0 }),
    }
}

/// Extracts and decodes a receipt's journal under an operation's layout,
/// then asks the engine to check the proof against the image identifier.
/// The journal handed back is exactly the receipt's, its decode errors pass
/// through unchanged, and on success the record is exactly the decoding of
/// those bytes. When the journal decodes, the only remaining failure is the
/// engine's rejection of the proof; the verdict itself is the engine's and
/// nothing here predicts when it accepts.
pub fn verify_and_decode(receipt: &risc0_zkvm::Receipt, op: Operation, image_digest: &Vec<u8>) -> (r:
    Result<(Vec<u8>, JournalRecord), HarnessError>)
    requires
        image_digest@.len() == 32,
    ensures
        r matches Ok(p) ==> p.0@ == journal_of(*receipt) && spec_decode(op, p.0@) == Ok::<
            crate::journal::RecordModel,
            HarnessError,
        >(p.1@),
        (spec_decode(op, journal_of(*receipt)) matches Err(e) ==> r == Err::<
            (Vec<u8>, JournalRecord),
            HarnessError,
        >(e)),
        spec_decode(op, journal_of(*receipt)) is Ok ==> (r is Ok || (r matches Err(e)
            && e is VerificationFailed)),
{
    let journal = receipt_journal_bytes(receipt);
    let record = match decode_journal(op, &journal) {
        Ok(rec) => rec,
        Err(e) => {
            return Err(e);
        },
    };
    if !receipt_verify(receipt, image_digest) {
        return Err(
            HarnessError::VerificationFailed {
                message: String::from_str("the engine rejected the proof"),
            },
        );
    }
    Ok((journal, record))
}

} // verus!
