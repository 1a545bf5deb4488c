//! Build-time orchestration for compiling a foreign-language source module
//! into a native static library, with FFI bindings in both directions.
//!
//! The library holds the decision logic of the pipeline: platform dispatch,
//! toolchain provisioning, compiler command construction, interpretation of
//! the compiler's outcome, interface-binding generation and build-directive
//! emission. Filesystem reads and the compiler subprocess live outside it.

use vstd::prelude::*;

pub mod bindings;
pub mod directives;
pub mod invoke;
pub mod pipeline;
pub mod toolchain;

verus! {

/// The failures the pipeline can surface. Each carries the full diagnostic
/// text verbatim, so no message is swallowed or summarized.
#[derive(Debug, Clone, PartialEq, Eq)]
pub enum BuildError {
    /// Provisioning could not produce a usable compiler binary: missing or
    /// corrupt archive, unsupported platform, or a filesystem failure.
    ToolchainUnavailable(String),
    /// The compiler subprocess ran but exited nonzero; the payload is the
    /// captured standard-error text, unmodified.
    CompilationFailure(String),
    /// The generated header could not be parsed, or a symbol could not be
    /// represented in the host binding language.
    BindingGenerationFailure(String),
}

impl BuildError {
    /// The diagnostic text the error carries, verbatim.
    pub open spec fn text(self) -> Seq<char> {
        match self {
            BuildError::ToolchainUnavailable(s) => s@,
            BuildError::CompilationFailure(s) => s@,
            BuildError::BindingGenerationFailure(s) => s@,
        }
    }

    /// Returns the carried diagnostic text without change.
    pub fn diagnostic(&self) -> (m: &String)
        ensures
            m@ == self.text(),
    {
        match self {
            BuildError::ToolchainUnavailable(s) => s,
            BuildError::CompilationFailure(s) => s,
            BuildError::BindingGenerationFailure(s) => s,
        }
    }
}

/// Explicit configuration handed in by the caller once, in place of ad-hoc
/// reads of process-wide environment state: the scratch/output directory and
/// the project root directory.
pub struct BuildConfig {
    pub scratch_dir: String,
    pub project_root: String,
}

} // verus!
