//! The version that the daemon reports.

use vstd::prelude::*;

verus! {

/// The version of a build whose commit is not known.
pub const VERSION: &'static str = "0.1.0+unknown";

/// A version with its commit, `<version>+<commit>`.
pub fn version_with(semver: &str, commit: &str) -> (r: String)
    ensures
        r@ == semver@ + "+"@ + commit@,
{
    let mut out: String = String::new();
    out.push_str(semver);
    out.push_str("+");
    out.push_str(commit);
    assert(out@ =~= semver@ + "+"@ + commit@);
    out
}

} // verus!
