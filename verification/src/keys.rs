use vstd::prelude::*;

use crate::artifact::{hex_encode, spec_hex_chars};
use crate::errors::HarnessError;

verus! {

// ---------------------------------------------------------------------------
// Signing-key material. The cryptography itself is the business of outside
// crates; the harness only lays out, renders and checks the key material.
// ---------------------------------------------------------------------------

/// The SHA-512 digest of a byte sequence.
pub uninterp spec fn sha512_of(bytes: Seq<u8>) -> Seq<u8>;

/// Relies on `sha2::Sha512`: the digest depends on the input bytes alone
/// and is 64 bytes long.
#[verifier::external_body]
fn sha512(bytes: &Vec<u8>) -> (r: Vec<u8>)
    ensures
        r@ == sha512_of(bytes@),
        r@.len() == 64,
{
    <sha2::Sha512 as sha2::Digest>::digest(bytes.as_slice()).to_vec()
}

/// The Ed25519 key pair derived from a 32-byte seed: the 64-byte secret
/// key, then the 32-byte public key.
pub uninterp spec fn ed25519_keypair_of(seed: Seq<u8>) -> (Seq<u8>, Seq<u8>);

/// Some byte of the seed is nonzero; the all-zero seed is no key material.
pub open spec fn seed_nonzero(seed: Seq<u8>) -> bool {
    exists|i: int| 0 <= i < seed.len() && seed[i] != 0
}

/// Relies on `ed25519_compact::KeyPair::try_from_seed`: derivation from a
/// 32-byte seed is deterministic, succeeds exactly when some seed byte is
/// nonzero, and yields a 64-byte secret key and a 32-byte public key.
#[verifier::external_body]
fn derive_keypair(seed: &Vec<u8>) -> (r: Option<(Vec<u8>, Vec<u8>)>)
    requires
        seed@.len() == 32,
    ensures
        (r is Some) <==> seed_nonzero(seed@),
        r matches Some(pair) ==> pair.0@ == ed25519_keypair_of(seed@).0 && pair.0@.len() == 64
            && pair.1@ == ed25519_keypair_of(seed@).1 && pair.1@.len() == 32,
{
    let mut s = [0u8; 32];
    s.copy_from_slice(seed.as_slice());
    match ed25519_compact::KeyPair::try_from_seed(ed25519_compact::Seed::new(s)) {
        Ok(pair) => Some((pair.sk.as_ref().to_vec(), pair.pk.as_ref().to_vec())),
        Err(_) => None,
    }
}

/// The Ed25519 signature of a message under a 64-byte secret key.
pub uninterp spec fn ed25519_signature_of(secret_key: Seq<u8>, message: Seq<u8>) -> Seq<u8>;

/// Relies on `ed25519_compact::SecretKey::sign` with no added noise:
/// signing is then deterministic in the key and message, and signatures
/// are 64 bytes.
#[verifier::external_body]
fn sign_message(secret_key: &Vec<u8>, message: &Vec<u8>) -> (r: Vec<u8>)
    requires
        secret_key@.len() == 64,
    ensures
        r@ == ed25519_signature_of(secret_key@, message@),
        r@.len() == 64,
{
    let mut k = [0u8; 64];
    k.copy_from_slice(secret_key.as_slice());
    let sk = ed25519_compact::SecretKey::new(k);
    sk.sign(message.as_slice(), None).as_ref().to_vec()
}

/// Whether an Ed25519 signature verifies for a public key and message.
pub uninterp spec fn ed25519_verifies(public_key: Seq<u8>, message: Seq<u8>, signature: Seq<u8>) -> bool;

/// Relies on `ed25519_compact::PublicKey::verify`: acceptance depends on
/// the key, message and signature bytes alone; malformed keys or
/// signatures never verify.
#[verifier::external_body]
fn verify_signature(public_key: &Vec<u8>, message: &Vec<u8>, signature: &Vec<u8>) -> (r: bool)
    ensures
        r == ed25519_verifies(public_key@, message@, signature@),
{
    let pk = match ed25519_compact::PublicKey::from_slice(public_key.as_slice()) {
        Ok(k) => k,
        Err(_) => {
            return false;
        },
    };
    let sig = match ed25519_compact::Signature::from_slice(signature.as_slice()) {
        Ok(s) => s,
        Err(_) => {
            return false;
        },
    };
    pk.verify(message.as_slice(), &sig).is_ok()
}

/// The public key belonging to a 64-byte secret key.
pub uninterp spec fn ed25519_public_of_secret(secret_key: Seq<u8>) -> Seq<u8>;

/// Relies on `ed25519_compact::SecretKey::public_key`: the public half is
/// a function of the secret key bytes and is 32 bytes long.
#[verifier::external_body]
fn public_key_of_secret(secret_key: &Vec<u8>) -> (r: Vec<u8>)
    requires
        secret_key@.len() == 64,
    ensures
        r@ == ed25519_public_of_secret(secret_key@),
        r@.len() == 32,
{
    let mut k = [0u8; 64];
    k.copy_from_slice(secret_key.as_slice());
    ed25519_compact::SecretKey::new(k).public_key().as_ref().to_vec()
}

/// The 64-byte stored form of a key pair: the seed, then the public key.
pub fn stored_key_material(seed: &Vec<u8>, public_key: &Vec<u8>) -> (r: Vec<u8>)
    requires
        seed@.len() == 32,
        public_key@.len() == 32,
    ensures
        r@ == seed@ + public_key@,
        r@.len() == 64,
{
    let mut out = seed.clone();
    out.extend_from_slice(public_key.as_slice());
    out
}

/// The hex-text contents of the two key files.
#[derive(Debug, Clone)]
pub struct KeyFiles {
    pub secret_hex: String,
    pub public_hex: String,
}

/// Derives a key pair from a seed and probes it by signing and verifying a
/// fixed message; only a pair that passes the probe is rendered. An
/// all-zero seed is rejected outright. The secret file holds the seed
/// extended with the public key, in hex; the public file holds the public
/// key alone.
pub fn regenerate_public_key(seed: &Vec<u8>) -> (r: Result<KeyFiles, HarnessError>)
    requires
        seed@.len() == 32,
    ensures
        ({
            let pair = ed25519_keypair_of(seed@);
            let probe = vstd::utf8::encode_utf8("test message"@);
            let accepted = seed_nonzero(seed@) && ed25519_verifies(
                pair.1,
                probe,
                ed25519_signature_of(pair.0, probe),
            );
            &&& accepted <==> r is Ok
            &&& r matches Ok(f) ==> f.secret_hex@ == spec_hex_chars(seed@ + pair.1)
                && f.secret_hex@.len() == 128 && f.public_hex@ == spec_hex_chars(pair.1)
                && f.public_hex@.len() == 64
        }),
{
    let (secret_key, public_key) = match derive_keypair(seed) {
        Some(pair) => pair,
        None => {
            return Err(HarnessError::InvalidArgument { position: 0 });
        },
    };
    let probe = "test message".as_bytes_vec();
    let signature = sign_message(&secret_key, &probe);
    if !verify_signature(&public_key, &probe, &signature) {
        return Err(
            HarnessError::VerificationFailed {
                message: String::from_str("the generated key pair failed its validation probe"),
            },
        );
    }
    let stored = stored_key_material(seed, &public_key);
    proof {
        crate::artifact::lemma_hex_round_trip(seed@ + ed25519_keypair_of(seed@).1);
        crate::artifact::lemma_hex_round_trip(ed25519_keypair_of(seed@).1);
    }
    Ok(KeyFiles { secret_hex: hex_encode(&stored), public_hex: hex_encode(&public_key) })
}

/// Recomputes the public key file from a stored 32-byte private key, as
/// the standalone key tool does: the stored bytes are stretched with
/// SHA-512 into a secret key, whose public half is rendered in hex.
pub fn derived_public_key_hex(private_key: &Vec<u8>) -> (r: Result<String, HarnessError>)
    ensures
        private_key@.len() == 32 ==> (r matches Ok(s) && s@ == spec_hex_chars(
            ed25519_public_of_secret(sha512_of(private_key@)),
        )),
        private_key@.len() != 32 <==> r is Err,
{
    if private_key.len() != 32 {
        return Err(HarnessError::InvalidArgument { position: 0 });
    }
    let secret_key = sha512(private_key);
    let public_key = public_key_of_secret(&secret_key);
    Ok(hex_encode(&public_key))
}

} // verus!
