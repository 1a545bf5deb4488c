//! Toolchain provisioning: platform dispatch to a pinned compiler release,
//! and idempotent extraction of the bundled archive into the scratch
//! directory.

use vstd::prelude::*;

use crate::BuildError;

verus! {

/// The closed set of host platforms a pinned toolchain is bundled for.
#[derive(Debug, Clone, Copy, PartialEq, Eq, Structural)]
pub enum Triple {
    LinuxX8664,
    WindowsX8664,
    MacosX8664,
}

/// What the provisioner decides to do after probing for the resolved binary.
#[derive(Debug, Clone, Copy, PartialEq, Eq, Structural)]
pub enum ProvisionAction {
    /// The binary is already on disk: no filesystem write happens.
    UseExisting,
    /// The binary is absent: the bundled archive is extracted.
    Extract,
}

/// The version-qualified release name pinned for each supported platform.
pub open spec fn spec_release_name(t: Triple) -> Seq<char> {
    match t {
        Triple::LinuxX8664 => "linux-x86_64-0.5.0"@,
        Triple::WindowsX8664 => "windows-x86_64-0.5.0+80ff549e2"@,
        Triple::MacosX8664 => "macos-x86_64-0.5.0"@,
    }
}

/// The file name of the compiler executable on each platform.
pub open spec fn spec_exe_name(t: Triple) -> Seq<char> {
    match t {
        Triple::LinuxX8664 => "zig"@,
        Triple::WindowsX8664 => "zig.exe"@,
        Triple::MacosX8664 => "zig"@,
    }
}

/// The file name of the bundled compressed-tar archive for a platform.
pub open spec fn spec_archive_file_name(t: Triple) -> Seq<char> {
    "zig-"@ + spec_release_name(t) + ".tar.xz"@
}

/// The directory the archive is extracted into, under the scratch root.
pub open spec fn spec_extract_root(scratch: Seq<char>) -> Seq<char> {
    scratch + "/zig-toolchain"@
}

/// The resolved compiler binary path: the archive is rooted at a
/// version-qualified directory name, so the binary lands at a location that
/// is a pure function of platform and scratch directory.
pub open spec fn spec_bin_path(t: Triple, scratch: Seq<char>) -> Seq<char> {
    spec_extract_root(scratch) + "/zig-"@ + spec_release_name(t) + "/"@ + spec_exe_name(t)
}

/// The provisioning decision as a function of whether the resolved binary is
/// already present: presence means no extraction (idempotence).
pub open spec fn spec_provision_action(binary_present: bool) -> ProvisionAction {
    if binary_present {
        ProvisionAction::UseExisting
    } else {
        ProvisionAction::Extract
    }
}

/// Maps a host-triple string to the supported platform it denotes, if any.
pub open spec fn spec_triple_of(host: Seq<char>) -> Option<Triple> {
    if host == "x86_64-unknown-linux-gnu"@ {
        Option::Some(Triple::LinuxX8664)
    } else if host == "x86_64-pc-windows-msvc"@ {
        Option::Some(Triple::WindowsX8664)
    } else if host == "x86_64-apple-darwin"@ {
        Option::Some(Triple::MacosX8664)
    } else {
        Option::None
    }
}

/// Character-wise string equality.
pub fn str_eq(a: &str, b: &str) -> (r: bool)
    ensures
        r == (a@ == b@),
{
    let a_len = a.unicode_len();
    let b_len = b.unicode_len();
    if a_len != b_len {
        assert(a@ != b@) by {
            assert(a@.len() != b@.len());
        }
        return false;
    }
    let mut i: usize = 0;
    while i < a_len
        invariant
            i <= a_len,
            a_len == a@.len(),
            a_len == b@.len(),
            forall|j: int| 0 <= j < i ==> a@[j] == b@[j],
        decreases a_len - i,
    {
        if a.get_char(i) != b.get_char(i) {
            assert(a@ != b@);
            return false;
        }
        i = i + 1;
    }
    assert(a@ =~= b@);
    true
}

/// Selects the platform variant for a host triple; unsupported triples fail
/// with `ToolchainUnavailable` and name the triple in the diagnostic.
pub fn select_triple(host: &str) -> (r: Result<Triple, BuildError>)
    ensures
        r matches Ok(t) ==> spec_triple_of(host@) == Option::Some(t),
        r matches Err(e) ==> spec_triple_of(host@) == Option::<Triple>::None
            && (e matches BuildError::ToolchainUnavailable(m)
                && m@ == "unsupported host triple: "@ + host@),
{
    if str_eq(host, "x86_64-unknown-linux-gnu") {
        Ok(Triple::LinuxX8664)
    } else if str_eq(host, "x86_64-pc-windows-msvc") {
        Ok(Triple::WindowsX8664)
    } else if str_eq(host, "x86_64-apple-darwin") {
        Ok(Triple::MacosX8664)
    } else {
        Err(BuildError::ToolchainUnavailable(
            String::from_str("unsupported host triple: ").concat(host),
        ))
    }
}

/// The pinned release name for a platform.
pub fn release_name(t: Triple) -> (r: String)
    ensures
        r@ == spec_release_name(t),
{
    match t {
        Triple::LinuxX8664 => String::from_str("linux-x86_64-0.5.0"),
        Triple::WindowsX8664 => String::from_str("windows-x86_64-0.5.0+80ff549e2"),
        Triple::MacosX8664 => String::from_str("macos-x86_64-0.5.0"),
    }
}

/// The compiler executable's file name for a platform.
pub fn exe_name(t: Triple) -> (r: String)
    ensures
        r@ == spec_exe_name(t),
{
    match t {
        Triple::LinuxX8664 => String::from_str("zig"),
        Triple::WindowsX8664 => String::from_str("zig.exe"),
        Triple::MacosX8664 => String::from_str("zig"),
    }
}

/// The bundled archive's file name for a platform.
pub fn archive_file_name(t: Triple) -> (r: String)
    ensures
        r@ == spec_archive_file_name(t),
{
    String::from_str("zig-").concat(release_name(t).as_str()).concat(".tar.xz")
}

/// The extraction root under the scratch directory.
pub fn extract_root(scratch: &str) -> (r: String)
    ensures
        r@ == spec_extract_root(scratch@),
{
    String::from_str(scratch).concat("/zig-toolchain")
}

/// The resolved compiler binary path for a platform and scratch directory.
pub fn bin_path(t: Triple, scratch: &str) -> (r: String)
    ensures
        r@ == spec_bin_path(t, scratch@),
{
    let r = extract_root(scratch)
        .concat("/zig-")
        .concat(release_name(t).as_str())
        .concat("/")
        .concat(exe_name(t).as_str());
    assert(r@ =~= spec_bin_path(t, scratch@));
    r
}

/// The provisioning decision: extraction happens only when the resolved
/// binary is absent.
pub fn provision_action(binary_present: bool) -> (a: ProvisionAction)
    ensures
        a == spec_provision_action(binary_present),
{
    if binary_present {
        ProvisionAction::UseExisting
    } else {
        ProvisionAction::Extract
    }
}

/// Everything the provisioner knows about one platform's toolchain: the
/// pinned release, where its archive lives relative to the project, where
/// it is extracted under the scratch directory, and where the resolved
/// binary lands. Constructed once per build invocation and read-only after.
pub struct ToolchainDescriptor {
    pub triple: Triple,
    pub release: String,
    pub archive_file: String,
    pub extract_root: String,
    pub bin_path: String,
}

/// A descriptor whose fields are exactly the platform's pinned values for
/// the given scratch directory.
pub open spec fn wf_descriptor(d: ToolchainDescriptor, scratch: Seq<char>) -> bool {
    &&& d.release@ == spec_release_name(d.triple)
    &&& d.archive_file@ == spec_archive_file_name(d.triple)
    &&& d.extract_root@ == spec_extract_root(scratch)
    &&& d.bin_path@ == spec_bin_path(d.triple, scratch)
}

/// Builds the toolchain descriptor for a platform and scratch directory.
pub fn describe_toolchain(t: Triple, scratch: &str) -> (d: ToolchainDescriptor)
    ensures
        d.triple == t,
        wf_descriptor(d, scratch@),
{
    ToolchainDescriptor {
        triple: t,
        release: release_name(t),
        archive_file: archive_file_name(t),
        extract_root: extract_root(scratch),
        bin_path: bin_path(t, scratch),
    }
}

/// Relies on std::path::Path::exists: returns whether the path points at an
/// existing filesystem entity at the time of the call.
#[verifier::external_body]
fn path_exists(p: &str) -> bool {
    std::path::Path::new(p).exists()
}

/// Relies on xz2::read::XzDecoder and tar::Archive::unpack: decompresses the
/// xz-compressed tar stream in `bytes` and writes the archive's entries under
/// `dest`, creating `dest` if needed; on failure the returned text describes
/// the underlying I/O error.
#[verifier::external_body]
fn unpack_xz_archive(bytes: &[u8], dest: &str) -> Result<(), String> {
    let decoder = xz2::read::XzDecoder::new(bytes);
    let mut archive = tar::Archive::new(decoder);
    match archive.unpack(dest) {
        Ok(()) => Ok(()),
        Err(e) => Err(format!("{}", e)),
    }
}

/// Ensures a compiler binary for the platform is present on disk and returns
/// its path. If the resolved path already exists nothing is written;
/// otherwise the bundled archive `archive` is extracted under the scratch
/// directory. Every success returns the same path for the same platform and
/// scratch directory; every failure is `ToolchainUnavailable`.
pub fn zig_bin(t: Triple, scratch: &str, archive: &[u8]) -> (r: Result<String, BuildError>)
    ensures
        r matches Ok(p) ==> p@ == spec_bin_path(t, scratch@),
        r matches Err(e) ==> e matches BuildError::ToolchainUnavailable(_),
{
    let path = bin_path(t, scratch);
    match provision_action(path_exists(path.as_str())) {
        ProvisionAction::UseExisting => Ok(path),
        ProvisionAction::Extract => {
            let root = extract_root(scratch);
            match unpack_xz_archive(archive, root.as_str()) {
                Ok(()) => Ok(path),
                Err(m) => Err(BuildError::ToolchainUnavailable(m)),
            }
        },
    }
}

/// Law: provisioning is idempotent. The resolved binary path is a pure
/// function of platform and scratch directory, so repeated provisioning
/// against the same scratch directory and version resolves to the identical
/// path; and when the binary is already present the decided action is
/// `UseExisting`, which performs no filesystem write.
pub proof fn lemma_provision_idempotent(t: Triple, scratch: Seq<char>, p1: Seq<char>, p2: Seq<char>)
    requires
        p1 == spec_bin_path(t, scratch),
        p2 == spec_bin_path(t, scratch),
    ensures
        p1 == p2,
        spec_provision_action(true) == ProvisionAction::UseExisting,
{
}

/// Law: platform dispatch is exact. Distinct supported platforms pin
/// distinct releases and distinct archives, so selecting a triple can invoke
/// only the matching archive and version.
pub proof fn lemma_platform_dispatch_exact(t1: Triple, t2: Triple)
    requires
        t1 != t2,
    ensures
        spec_release_name(t1) != spec_release_name(t2),
        spec_archive_file_name(t1) != spec_archive_file_name(t2),
{
    reveal_strlit("linux-x86_64-0.5.0");
    reveal_strlit("windows-x86_64-0.5.0+80ff549e2");
    reveal_strlit("macos-x86_64-0.5.0");
    assert(spec_release_name(t1) != spec_release_name(t2)) by {
        assert("linux-x86_64-0.5.0"@.len() == 18);
        assert("windows-x86_64-0.5.0+80ff549e2"@.len() == 30);
        assert("macos-x86_64-0.5.0"@.len() == 18);
        assert("linux-x86_64-0.5.0"@[0] == 'l');
        assert("macos-x86_64-0.5.0"@[0] == 'm');
    }
    assert(spec_archive_file_name(t1) != spec_archive_file_name(t2)) by {
        reveal_strlit("zig-");
        reveal_strlit(".tar.xz");
        let a1 = spec_archive_file_name(t1);
        let a2 = spec_archive_file_name(t2);
        assert(a1.len() == 4 + spec_release_name(t1).len() + 7);
        assert(a2.len() == 4 + spec_release_name(t2).len() + 7);
        if spec_release_name(t1).len() == spec_release_name(t2).len() {
            assert(spec_release_name(t1)[0] != spec_release_name(t2)[0]);
            assert(a1[4] == spec_release_name(t1)[0]);
            assert(a2[4] == spec_release_name(t2)[0]);
        }
    }
}

} // verus!
