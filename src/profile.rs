//! The project profile: a directory of links into the installed packages.
use vstd::prelude::*;

use crate::manifest::{join_path, path_join};
use crate::text::{has_prefix, starts_with};

verus! {

/// The profile directory, relative to the project directory.
pub const PROFILE_DIR: &'static str = ".macdev/profile";

/// The profile's directory of executables.
pub const PROFILE_BIN: &'static str = ".macdev/profile/bin";

/// The profile's directory of libraries.
pub const PROFILE_LIB: &'static str = ".macdev/profile/lib";

/// The directories of a package linked into the profile, each with the profile directory
/// that receives its entries: `bin` and `libexec/bin` into the profile's `bin`, `lib`
/// into its `lib`.
pub open spec fn link_pairs(prefix: Seq<char>) -> Seq<(Seq<char>, Seq<char>)> {
    seq![
        (path_join(prefix, "bin"@), PROFILE_BIN@),
        (path_join(prefix, "libexec/bin"@), PROFILE_BIN@),
        (path_join(prefix, "lib"@), PROFILE_LIB@),
    ]
}

/// The directories to link for a package installed under `prefix`, in order.
pub fn link_plan(prefix: &str) -> (r: Vec<(String, String)>)
    ensures
        r@.len() == 3,
        forall|i: int| 0 <= i < 3 ==> ((#[trigger] r@[i]).0@, r@[i].1@) == link_pairs(prefix@)[i],
{
    let mut r: Vec<(String, String)> = Vec::new();
    r.push((join_path(prefix, "bin"), PROFILE_BIN.to_owned()));
    r.push((join_path(prefix, "libexec/bin"), PROFILE_BIN.to_owned()));
    r.push((join_path(prefix, "lib"), PROFILE_LIB.to_owned()));
    r
}

/// Whether linking a package also sets up a Python virtual environment: its identifier
/// starts with `python`.
pub fn needs_python_venv(package: &str) -> (r: bool)
    ensures
        r == has_prefix(package@, "python"@),
{
    starts_with(package, "python")
}

/// The search path inside the project shell: the profile's `bin`, then the old path.
pub fn shell_path(profile_bin: &str, current: &str) -> (r: String)
    ensures
        r@ == profile_bin@ + seq![':'] + current@,
{
    proof {
        reveal_strlit(":");
        assert(":"@ =~= seq![':']);
    }
    crate::text::join_with(profile_bin, ":", current)
}

} // verus!
