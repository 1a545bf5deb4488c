//! Compiler invocation: building the reproducible command line for one
//! compilation unit, the predictable artifact locations, and the
//! interpretation of the subprocess outcome.

use vstd::prelude::*;

use crate::BuildError;
use crate::toolchain::Triple;

verus! {

/// One foreign source file with its target library name and output root:
/// the granularity at which the pipeline operates. The two flags fold the
/// historical variations of the orchestration into configuration: whether a
/// host-callable header must be written before the foreign compile, and
/// whether the artifact must link the platform C runtime.
pub struct CompilationUnit {
    pub source_path: String,
    pub lib_name: String,
    pub out_root: String,
    pub needs_host_callback_header: bool,
    pub link_c_runtime: bool,
}

/// What one compiler run produced: the exit status and the captured
/// standard-error text. Consumed immediately to decide success or failure.
pub struct InvocationResult {
    pub exit_code: i32,
    pub stderr: String,
}

/// The unit's output directory, unique per library name under the shared
/// output root so that units compiled in one build cannot collide.
pub open spec fn spec_lib_dir(u: CompilationUnit) -> Seq<char> {
    u.out_root@ + "/zig-lib-"@ + u.lib_name@
}

/// The static-library file extension per platform.
pub open spec fn spec_static_lib_ext(t: Triple) -> Seq<char> {
    match t {
        Triple::LinuxX8664 => "a"@,
        Triple::WindowsX8664 => "lib"@,
        Triple::MacosX8664 => "a"@,
    }
}

/// Where the static library is expected after a successful run:
/// `{output_directory}/{library_name}.{static-lib-extension}`.
pub open spec fn spec_artifact_path(u: CompilationUnit, t: Triple) -> Seq<char> {
    spec_lib_dir(u) + "/"@ + u.lib_name@ + "."@ + spec_static_lib_ext(t)
}

/// Where the compiler leaves the generated C header for the unit:
/// `{output_directory}/{library_name}.h`.
pub open spec fn spec_header_path(u: CompilationUnit) -> Seq<char> {
    spec_lib_dir(u) + "/"@ + u.lib_name@ + ".h"@
}

/// The full argument list of one compiler run: position-independent code,
/// bundled runtime support, optionally the platform C runtime, an explicit
/// output directory and library name, then the source path.
pub open spec fn spec_build_args(u: CompilationUnit) -> Seq<Seq<char>> {
    seq!["build-lib"@, "-fPIC"@, "--bundle-compiler-rt"@]
        + (if u.link_c_runtime {
            seq!["--library"@, "c"@]
        } else {
            Seq::<Seq<char>>::empty()
        })
        + seq!["--output-dir"@, spec_lib_dir(u), "--name"@, u.lib_name@, u.source_path@]
}

/// The unit's output directory as a value.
pub fn lib_dir(u: &CompilationUnit) -> (r: String)
    ensures
        r@ == spec_lib_dir(*u),
{
    let r = String::from_str(u.out_root.as_str())
        .concat("/zig-lib-")
        .concat(u.lib_name.as_str());
    assert(r@ =~= spec_lib_dir(*u));
    r
}

/// The platform's static-library extension.
pub fn static_lib_ext(t: Triple) -> (r: String)
    ensures
        r@ == spec_static_lib_ext(t),
{
    match t {
        Triple::LinuxX8664 => String::from_str("a"),
        Triple::WindowsX8664 => String::from_str("lib"),
        Triple::MacosX8664 => String::from_str("a"),
    }
}

/// The expected artifact path of the unit on the platform.
pub fn artifact_path(u: &CompilationUnit, t: Triple) -> (r: String)
    ensures
        r@ == spec_artifact_path(*u, t),
{
    let r = lib_dir(u)
        .concat("/")
        .concat(u.lib_name.as_str())
        .concat(".")
        .concat(static_lib_ext(t).as_str());
    assert(r@ =~= spec_artifact_path(*u, t));
    r
}

/// The path of the compiler-generated C header of the unit.
pub fn header_path(u: &CompilationUnit) -> (r: String)
    ensures
        r@ == spec_header_path(*u),
{
    let r = lib_dir(u).concat("/").concat(u.lib_name.as_str()).concat(".h");
    assert(r@ =~= spec_header_path(*u));
    r
}

/// Builds the compiler's argument list for the unit.
pub fn build_args(u: &CompilationUnit) -> (r: Vec<String>)
    ensures
        r.deep_view() == spec_build_args(*u),
{
    let mut r: Vec<String> = Vec::new();
    r.push(String::from_str("build-lib"));
    r.push(String::from_str("-fPIC"));
    r.push(String::from_str("--bundle-compiler-rt"));
    if u.link_c_runtime {
        r.push(String::from_str("--library"));
        r.push(String::from_str("c"));
    }
    r.push(String::from_str("--output-dir"));
    r.push(lib_dir(u));
    r.push(String::from_str("--name"));
    r.push(u.lib_name.clone());
    r.push(u.source_path.clone());
    assert(r.deep_view() =~= spec_build_args(*u));
    r
}

/// Decides success or failure of one compiler run. Success is exactly exit
/// status zero; a nonzero exit is a `CompilationFailure` carrying the
/// captured standard-error text verbatim; a run that could not start at all
/// means the provisioned binary was not usable.
pub fn interpret_invocation(outcome: Result<InvocationResult, String>) -> (r: Result<
    (),
    BuildError,
>)
    ensures
        r is Ok <==> (outcome is Ok && outcome->Ok_0.exit_code == 0),
        outcome is Ok && outcome->Ok_0.exit_code != 0 ==> (r is Err && (r->Err_0
            matches BuildError::CompilationFailure(m) && m@ == outcome->Ok_0.stderr@)),
        outcome is Err ==> (r is Err && (r->Err_0
            matches BuildError::ToolchainUnavailable(m) && m@ == "unable to execute zig: "@
            + outcome->Err_0@)),
{
    match outcome {
        Ok(ir) => {
            if ir.exit_code == 0 {
                Ok(())
            } else {
                Err(BuildError::CompilationFailure(ir.stderr))
            }
        },
        Err(m0) => Err(
            BuildError::ToolchainUnavailable(
                String::from_str("unable to execute zig: ").concat(m0.as_str()),
            ),
        ),
    }
}

/// Law: invocation is deterministic. Two units with the same source path,
/// library name, output root and flags get the identical argument list, the
/// identical output directory and the identical artifact path, so repeated
/// runs of one unit always target the same locations.
pub proof fn lemma_invocation_deterministic(u1: CompilationUnit, u2: CompilationUnit, t: Triple)
    requires
        u1.source_path@ == u2.source_path@,
        u1.lib_name@ == u2.lib_name@,
        u1.out_root@ == u2.out_root@,
        u1.link_c_runtime == u2.link_c_runtime,
    ensures
        spec_build_args(u1) == spec_build_args(u2),
        spec_lib_dir(u1) == spec_lib_dir(u2),
        spec_artifact_path(u1, t) == spec_artifact_path(u2, t),
{
    assert(spec_lib_dir(u1) == spec_lib_dir(u2));
    assert(spec_build_args(u1) =~= spec_build_args(u2));
}

/// Law: output directories cannot collide. Two units under the same output
/// root with different library names have different output directories.
pub proof fn lemma_lib_dir_unique(u1: CompilationUnit, u2: CompilationUnit)
    requires
        u1.out_root@ == u2.out_root@,
        u1.lib_name@ != u2.lib_name@,
    ensures
        spec_lib_dir(u1) != spec_lib_dir(u2),
{
    let pre = u1.out_root@ + "/zig-lib-"@;
    let d1 = spec_lib_dir(u1);
    let d2 = spec_lib_dir(u2);
    if d1 == d2 {
        assert(d1.len() == pre.len() + u1.lib_name@.len());
        assert(d2.len() == pre.len() + u2.lib_name@.len());
        assert(u1.lib_name@.len() == u2.lib_name@.len());
        assert forall|i: int| 0 <= i < u1.lib_name@.len() implies u1.lib_name@[i]
            == u2.lib_name@[i] by {
            assert(d1[pre.len() + i] == u1.lib_name@[i]);
            assert(d2[pre.len() + i] == u2.lib_name@[i]);
        }
        assert(u1.lib_name@ =~= u2.lib_name@);
    }
}

} // verus!
