//! Per-unit orchestration: one function that turns the observed outcomes of
//! a unit's compile step into either the unit's complete outputs or the
//! error that aborts the build. The pipeline short-circuits: a failed stage
//! yields an error and nothing else, so no partial artifact is trusted.

use vstd::prelude::*;

use crate::BuildError;
use crate::bindings::binding_path;
use crate::bindings::emit_bindings;
use crate::bindings::parse_header;
use crate::bindings::sp_header;
use crate::bindings::spec_binding_path;
use crate::bindings::spec_bindings;
use crate::directives::emit_directives;
use crate::directives::spec_directives;
use crate::invoke::CompilationUnit;
use crate::invoke::InvocationResult;
use crate::invoke::interpret_invocation;

verus! {

/// Everything a successful unit hands back: where the host-language
/// bindings belong and what they hold, and the build directives to emit.
#[derive(Debug)]
pub struct UnitOutput {
    pub bindings_path: String,
    pub bindings_text: String,
    pub directives: Vec<String>,
}

/// Finishes one unit from the observed compile outcome. `invocation` is the
/// result of running the provisioned compiler with the unit's arguments
/// (`Err` when the subprocess could not start at all); `artifact_present`
/// is whether the expected static library file exists afterwards;
/// `header_text` is the content of the compiler-emitted header, when it
/// could be read.
///
/// Success is owed exactly when the compiler exited zero, the artifact is
/// in place, and the emitted header was read and parses; then the unit's
/// bindings and its three build directives are returned. A nonzero exit is
/// a `CompilationFailure` carrying the captured standard error verbatim,
/// and no directive is produced; so is a zero exit without the artifact; a
/// missing or unparseable header is a `BindingGenerationFailure`.
pub fn finish_unit(
    u: &CompilationUnit,
    invocation: Result<InvocationResult, String>,
    artifact_present: bool,
    header_text: Option<&str>,
) -> (r: Result<UnitOutput, BuildError>)
    ensures
        r is Ok <==> (invocation is Ok && invocation->Ok_0.exit_code == 0 && artifact_present
            && header_text is Some && sp_header((header_text->0)@, 0) is Some),
        r is Ok ==> ({
            let out = r->Ok_0;
            &&& out.bindings_path@ == spec_binding_path(u.source_path@)
            &&& out.bindings_text@ == spec_bindings(sp_header((header_text->0)@, 0)->Some_0)
            &&& out.directives.deep_view() == spec_directives(*u)
        }),
        invocation is Ok && invocation->Ok_0.exit_code != 0 ==> (r is Err && (r->Err_0
            matches BuildError::CompilationFailure(m) && m@ == invocation->Ok_0.stderr@)),
        invocation is Err ==> (r is Err && r->Err_0 matches BuildError::ToolchainUnavailable(_)),
        invocation is Ok && invocation->Ok_0.exit_code == 0 && !artifact_present ==> (r is Err && (
        r->Err_0 matches BuildError::CompilationFailure(m) && m@
            == "compiler exited successfully but the expected static library is missing"@)),
        invocation is Ok && invocation->Ok_0.exit_code == 0 && artifact_present && header_text
            is None ==> (r is Err && r->Err_0 matches BuildError::BindingGenerationFailure(_)),
        invocation is Ok && invocation->Ok_0.exit_code == 0 && artifact_present && header_text
            is Some && sp_header((header_text->0)@, 0) is None ==> (r is Err && r->Err_0
            matches BuildError::BindingGenerationFailure(_)),
{
    match interpret_invocation(invocation) {
        Err(e) => Err(e),
        Ok(()) => {
            if !artifact_present {
                return Err(
                    BuildError::CompilationFailure(
                        String::from_str(
                            "compiler exited successfully but the expected static library is missing",
                        ),
                    ),
                );
            }
            match header_text {
                None => Err(
                    BuildError::BindingGenerationFailure(
                        String::from_str("generated header is missing"),
                    ),
                ),
                Some(h) => match parse_header(h) {
                    Err(e) => Err(e),
                    Ok(symbols) => {
                        let text = emit_bindings(&symbols);
                        let path = binding_path(u.source_path.as_str());
                        let dirs = emit_directives(u);
                        Ok(
                            UnitOutput {
                                bindings_path: path,
                                bindings_text: text,
                                directives: dirs,
                            },
                        )
                    },
                },
            }
        },
    }
}

} // verus!
