//! Build-directive emission: the line-oriented instructions handed to the
//! enclosing build system after a unit succeeds, and the per-build session
//! that accumulates them across units.

use vstd::prelude::*;

use crate::BuildError;
use crate::invoke::CompilationUnit;
use crate::invoke::spec_lib_dir;
use crate::invoke::lib_dir;

verus! {

/// The three directives of one successful unit, in order: the link-search
/// path at the unit's output directory, the static library to link, and the
/// rebuild trigger at the original source path.
pub open spec fn spec_directives(u: CompilationUnit) -> Seq<Seq<char>> {
    seq![
        "cargo:rustc-link-search=native="@ + spec_lib_dir(u),
        "cargo:rustc-link-lib=static="@ + u.lib_name@,
        "cargo:rerun-if-changed="@ + u.source_path@,
    ]
}

/// Emits the unit's three build directives.
pub fn emit_directives(u: &CompilationUnit) -> (r: Vec<String>)
    ensures
        r.deep_view() == spec_directives(*u),
{
    let mut r: Vec<String> = Vec::new();
    r.push(String::from_str("cargo:rustc-link-search=native=").concat(lib_dir(u).as_str()));
    r.push(String::from_str("cargo:rustc-link-lib=static=").concat(u.lib_name.as_str()));
    r.push(String::from_str("cargo:rerun-if-changed=").concat(u.source_path.as_str()));
    assert(r.deep_view() =~= spec_directives(*u));
    r
}

/// One build invocation's running state: the directives emitted so far for
/// the units that succeeded, and the first failure if one occurred. The
/// pipeline short-circuits on failure, so nothing is recorded after one.
pub struct BuildSession {
    pub directives: Vec<String>,
    pub failure: Option<BuildError>,
}

impl BuildSession {
    /// A fresh session: nothing emitted, nothing failed.
    pub fn new() -> (s: Self)
        ensures
            s.directives.deep_view() == Seq::<Seq<char>>::empty(),
            s.failure is None,
    {
        let s = BuildSession { directives: Vec::new(), failure: Option::None };
        assert(s.directives.deep_view() =~= Seq::<Seq<char>>::empty());
        s
    }

    /// Records a unit that completed every stage: its three directives are
    /// appended after everything already emitted, which stays unchanged.
    pub fn record_unit_success(&mut self, u: &CompilationUnit)
        requires
            old(self).failure is None,
        ensures
            final(self).directives.deep_view() == old(self).directives.deep_view()
                + spec_directives(*u),
            final(self).failure is None,
    {
        let mut extra = emit_directives(u);
        let ghost before = self.directives.deep_view();
        let ghost extra_views = extra.deep_view();
        self.directives.append(&mut extra);
        assert(self.directives.deep_view() =~= before + extra_views);
    }

    /// Law: failure isolation. Recording a failed unit emits nothing and
    /// leaves every directive of earlier, already-succeeded units exactly as
    /// it was; only the failure is remembered.
    pub fn record_unit_failure(&mut self, e: BuildError)
        ensures
            final(self).directives == old(self).directives,
            final(self).failure == Option::Some(e),
    {
        self.failure = Option::Some(e);
    }
}

} // verus!
