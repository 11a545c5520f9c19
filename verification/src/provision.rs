use vstd::prelude::*;

use crate::errors::HarnessError;
use crate::ops::Operation;
use crate::text::{spec_dec_chars, u64_to_string};

verus! {

/// How an invocation's execution image is obtained: the precompiled image of
/// a built-in operation, a program compiled from caller-supplied source, or
/// an already-built binary supplied by the caller.
#[derive(Debug, Clone)]
pub enum ImageRef {
    Builtin(Operation),
    DynamicSource(String),
    PrecompiledBinary(Vec<u8>),
}

/// The model of an image reference.
pub enum ImageRefModel {
    Builtin(Operation),
    DynamicSource(Seq<char>),
    PrecompiledBinary(Seq<u8>),
}

impl View for ImageRef {
    type V = ImageRefModel;

    open spec fn view(&self) -> ImageRefModel {
        match self {
            ImageRef::Builtin(op) => ImageRefModel::Builtin(*op),
            ImageRef::DynamicSource(src) => ImageRefModel::DynamicSource(src@),
            ImageRef::PrecompiledBinary(bytes) => ImageRefModel::PrecompiledBinary(bytes@),
        }
    }
}

/// An image identifier resolved in two phases: built-in operations carry a
/// known identifier from the start, while dynamically provisioned images
/// stay unresolved until the content digest of their bytes is computed.
#[derive(Debug, Clone)]
pub enum ImageIdentity {
    Unresolved,
    Resolved(Vec<u8>),
}

impl ImageIdentity {
    /// Whether the identifier has been resolved to a digest.
    pub open spec fn is_resolved(&self) -> bool {
        self is Resolved
    }
}

/// The project manifest written next to caller-supplied source before the
/// toolchain runs.
pub open spec fn spec_guest_manifest() -> Seq<char> {
    "[package]\nname = \"guest-dynamic\"\nversion = \"0.1.0\"\nedition = \"2021\"\n\n[dependencies]\nrisc0-zkvm = { version = \"^2.3.1\", default-features = false, features = [\"std\"] }\nserde = { version = \"1.0\", default-features = false, features = [\"derive\", \"alloc\"] }\nserde_json = { version = \"1.0\", default-features = false, features = [\"alloc\"] }\n\n[[bin]]\nname = \"guest-dynamic\"\npath = \"src/main.rs\"\n"@
}

/// The path of the built binary, relative to the working directory.
pub open spec fn spec_built_binary_rel_path() -> Seq<char> {
    "target/riscv32im-risc0-zkvm-elf/docker/guest-dynamic.bin"@
}

/// The unique working-directory name for one dynamic invocation, derived
/// from the invocation's timestamp.
pub open spec fn spec_work_dir_name(timestamp: u64) -> Seq<char> {
    "risc0_dynamic_"@ + spec_dec_chars(timestamp as nat)
}

/// Everything the toolchain run needs: where to build, which files to
/// write, and where the binary will appear. The caller creates the
/// directory, writes both files, runs the toolchain, and removes the
/// directory on every exit path.
#[derive(Debug, Clone)]
pub struct BuildPlan {
    pub work_dir_name: String,
    pub manifest: String,
    pub source: String,
    pub binary_rel_path: String,
}

/// Lays out the isolated build for one caller-supplied program.
pub fn dynamic_build_plan(source: &str, timestamp: u64) -> (r: BuildPlan)
    ensures
        r.work_dir_name@ == spec_work_dir_name(timestamp),
        r.manifest@ == spec_guest_manifest(),
        r.source@ == source@,
        r.binary_rel_path@ == spec_built_binary_rel_path(),
{
    let mut dir = String::new();
    dir.append("risc0_dynamic_");
    let ts = u64_to_string(timestamp);
    dir.append(ts.as_str());
    proof {
        assert(dir@ =~= spec_work_dir_name(timestamp));
    }
    let manifest = String::from_str(
        "[package]\nname = \"guest-dynamic\"\nversion = \"0.1.0\"\nedition = \"2021\"\n\n[dependencies]\nrisc0-zkvm = { version = \"^2.3.1\", default-features = false, features = [\"std\"] }\nserde = { version = \"1.0\", default-features = false, features = [\"derive\", \"alloc\"] }\nserde_json = { version = \"1.0\", default-features = false, features = [\"alloc\"] }\n\n[[bin]]\nname = \"guest-dynamic\"\npath = \"src/main.rs\"\n",
    );
    let rel = String::from_str("target/riscv32im-risc0-zkvm-elf/docker/guest-dynamic.bin");
    BuildPlan {
        work_dir_name: dir,
        manifest,
        source: String::from_str(source),
        binary_rel_path: rel,
    }
}

/// The diagnostics surfaced when the toolchain fails: its standard output
/// and standard error, labelled and kept verbatim.
pub open spec fn spec_build_diagnostics(out_text: Seq<char>, err_text: Seq<char>) -> Seq<char> {
    "stdout: "@ + out_text + "\nstderr: "@ + err_text
}

/// Interprets what came back from the toolchain run. A failed run is
/// `BuildFailed` with non-empty diagnostics; a reported success without a
/// binary at the expected path is `ArtifactNotFound`; otherwise the image
/// bytes pass through unchanged.
pub fn resolve_build_outcome(
    status_ok: bool,
    out_text: &str,
    err_text: &str,
    binary: Option<Vec<u8>>,
) -> (r: Result<Vec<u8>, HarnessError>)
    ensures
        !status_ok ==> (r matches Err(HarnessError::BuildFailed { diagnostics })
            && diagnostics@ == spec_build_diagnostics(out_text@, err_text@)
            && diagnostics@.len() > 0),
        status_ok && binary is None ==> r matches Err(HarnessError::ArtifactNotFound),
        status_ok ==> (binary matches Some(b) ==> (r matches Ok(v) && v@ == b@)),
{
    if !status_ok {
        let mut diagnostics = String::new();
        diagnostics.append("stdout: ");
        diagnostics.append(out_text);
        diagnostics.append("\nstderr: ");
        diagnostics.append(err_text);
        proof {
            reveal_strlit("stdout: ");
            assert(diagnostics@ =~= spec_build_diagnostics(out_text@, err_text@));
        }
        return Err(HarnessError::BuildFailed { diagnostics });
    }
    match binary {
        Some(bytes) => Ok(bytes),
        None => Err(HarnessError::ArtifactNotFound),
    }
}

} // verus!
