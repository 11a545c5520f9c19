use zk_harness::artifact::{
    decode_artifact, detect_format, encode_artifact, proof_file_name, trim_ascii_ws,
    ArtifactFormat,
};
use zk_harness::engine::{load_artifact, resolve_image_identity};
use zk_harness::errors::HarnessError;
use zk_harness::keys::{derived_public_key_hex, regenerate_public_key};
use zk_harness::ops::Operation;
use zk_harness::provision::{dynamic_build_plan, resolve_build_outcome, ImageIdentity};

#[test]
fn artifact_file_names_are_deterministic() {
    let name = proof_file_name(Operation::Modexp, "4_13_497", 1_700, ArtifactFormat::Binary);
    assert_eq!(name.as_str(), "proof_modexp_4_13_497_1700.bin");
    let name = proof_file_name(Operation::Add, "", 1_700, ArtifactFormat::Hex);
    assert_eq!(name.as_str(), "proof_add_1700.hex");
}

#[test]
fn format_detected_from_extension() {
    assert_eq!(detect_format("proof_add_1700.bin"), ArtifactFormat::Binary);
    assert_eq!(detect_format("proof_add_1700.hex"), ArtifactFormat::Hex);
    assert_eq!(detect_format("whatever.txt"), ArtifactFormat::Hex);
    assert_eq!(detect_format("bin"), ArtifactFormat::Hex);
    let round = proof_file_name(Operation::Sqrt, "9", 3, ArtifactFormat::Binary);
    assert_eq!(detect_format(round.as_str()), ArtifactFormat::Binary);
}

#[test]
fn artifacts_round_trip_in_both_formats() {
    let payload: Vec<u8> = vec![0x01, 0xAB, 0x00, 0xFF, 0x7E];
    for format in [ArtifactFormat::Binary, ArtifactFormat::Hex] {
        let stored = encode_artifact(&payload, format);
        let back = decode_artifact(&stored, format).unwrap();
        assert_eq!(back, payload);
    }
}

#[test]
fn hex_artifacts_are_lowercase_text() {
    let payload: Vec<u8> = vec![0x01, 0xAB];
    let stored = encode_artifact(&payload, ArtifactFormat::Hex);
    assert_eq!(stored, b"01ab".to_vec());
}

#[test]
fn hex_artifacts_tolerate_surrounding_whitespace() {
    let stored = b"\n 01ab\t\n".to_vec();
    let back = decode_artifact(&stored, ArtifactFormat::Hex).unwrap();
    assert_eq!(back, vec![0x01, 0xAB]);
    assert_eq!(trim_ascii_ws(&stored), b"01ab".to_vec());
}

#[test]
fn malformed_hex_artifacts_rejected() {
    let odd = b"01a".to_vec();
    assert!(matches!(
        decode_artifact(&odd, ArtifactFormat::Hex),
        Err(HarnessError::InvalidArgument { .. })
    ));
    let bad = b"zz".to_vec();
    assert!(decode_artifact(&bad, ArtifactFormat::Hex).is_err());
}

#[test]
fn malformed_artifacts_do_not_load() {
    let garbage = b"zz not hex".to_vec();
    assert!(load_artifact("proof_add_1.hex", &garbage).is_err());
    let not_a_receipt = vec![0u8; 16];
    assert!(load_artifact("proof_add_1.bin", &not_a_receipt).is_err());
}

#[test]
fn build_plan_is_isolated_and_unique() {
    let plan = dynamic_build_plan("fn main() {}", 42);
    assert_eq!(plan.work_dir_name.as_str(), "risc0_dynamic_42");
    assert_eq!(
        plan.binary_rel_path.as_str(),
        "target/riscv32im-risc0-zkvm-elf/docker/guest-dynamic.bin"
    );
    assert_eq!(plan.source.as_str(), "fn main() {}");
    assert!(plan.manifest.as_str().starts_with("[package]"));
    assert!(plan.manifest.as_str().contains("guest-dynamic"));
    let other = dynamic_build_plan("fn main() {}", 43);
    assert_ne!(plan.work_dir_name.as_str(), other.work_dir_name.as_str());
}

#[test]
fn dynamic_build_failure_surfaces_diagnostics() {
    // A failed toolchain run yields BuildFailed with non-empty diagnostics.
    let r = resolve_build_outcome(false, "", "error: expected item, found `}`", None);
    match r {
        Err(HarnessError::BuildFailed { diagnostics }) => {
            assert!(!diagnostics.is_empty());
            assert_eq!(
                diagnostics.as_str(),
                "stdout: \nstderr: error: expected item, found `}`"
            );
        }
        other => panic!("expected a build failure, got {:?}", other.map(|_| ())),
    }
}

#[test]
fn missing_binary_after_successful_build() {
    assert!(matches!(
        resolve_build_outcome(true, "ok", "", None),
        Err(HarnessError::ArtifactNotFound)
    ));
    let bytes = vec![7u8, 8, 9];
    let r = resolve_build_outcome(true, "ok", "", Some(bytes.clone())).unwrap();
    assert_eq!(r, bytes);
}

#[test]
fn image_identity_of_unparsable_bytes_is_refused() {
    // The engine's digest only applies to images it can parse; arbitrary
    // bytes are rejected, and rejected consistently.
    let garbage = vec![1u8, 2, 3, 4];
    let first = resolve_image_identity(&garbage);
    let second = resolve_image_identity(&garbage);
    assert!(matches!(first, Err(HarnessError::ProvingFailed { .. })));
    assert!(matches!(second, Err(HarnessError::ProvingFailed { .. })));
}

#[test]
fn image_identity_starts_unresolved_for_dynamic_images() {
    let id = ImageIdentity::Unresolved;
    assert!(matches!(id, ImageIdentity::Unresolved));
}

#[test]
fn key_regeneration_produces_matching_files() {
    let seed: Vec<u8> = (0u8..32).collect();
    let files = regenerate_public_key(&seed).unwrap();
    // The secret file holds the seed extended with the public key, in hex.
    assert_eq!(files.secret_hex.len(), 128);
    assert_eq!(files.public_hex.len(), 64);
    assert_eq!(&files.secret_hex[..64], hex::encode(&seed));
    assert_eq!(&files.secret_hex[64..], files.public_hex.as_str());
    // Same seed, same files; the derivation is deterministic.
    let again = regenerate_public_key(&seed).unwrap();
    assert_eq!(files.public_hex, again.public_hex);
}

#[test]
fn all_zero_seed_rejected_without_panic() {
    // An all-zero seed is no key material; it is refused, never a crash.
    let zero_seed = vec![0u8; 32];
    assert!(matches!(
        regenerate_public_key(&zero_seed),
        Err(HarnessError::InvalidArgument { .. })
    ));
}

#[test]
fn stored_private_key_recovers_its_public_half() {
    let private: Vec<u8> = vec![7u8; 32];
    let hex_pk = derived_public_key_hex(&private).unwrap();
    assert_eq!(hex_pk.len(), 64);
    assert!(hex_pk.chars().all(|c| c.is_ascii_hexdigit()));
    // Rejects anything that is not exactly 32 bytes.
    assert!(derived_public_key_hex(&vec![7u8; 31]).is_err());
    assert!(derived_public_key_hex(&vec![7u8; 33]).is_err());
}

#[test]
fn error_labels_are_stable() {
    assert_eq!(HarnessError::UnknownOperation.label(), "unknown operation");
    assert_eq!(
        HarnessError::TruncatedJournal { expected: 24, actual: 3 }.label(),
        "truncated journal"
    );
    assert_eq!(HarnessError::ArtifactNotFound.label(), "artifact not found");
}
