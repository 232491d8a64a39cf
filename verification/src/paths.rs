//! Platform-aware virtual-environment path resolution.
//!
//! A virtual environment keeps its executables either under `bin/`
//! (POSIX-style layout) or under `Scripts/` (Windows-style layout).  The
//! functions here decide, from the observed filesystem facts alone, whether
//! an environment exists and where its executable directories are; the
//! caller probes the filesystem and hands the outcome in as plain booleans.

use vstd::prelude::*;
use crate::error::SubstrateError;

verus! {

/// The filesystem facts that the existence check reads: whether each of the
/// four probed executables is present under the environment root.
#[derive(Clone, Copy, Debug, PartialEq, Eq, Structural)]
pub struct VenvProbe {
    /// `<root>/bin/python` exists.
    pub bin_python: bool,
    /// `<root>/bin/pip` exists.
    pub bin_pip: bool,
    /// `<root>/Scripts/python` exists.
    pub scripts_python: bool,
    /// `<root>/Scripts/pip` exists.
    pub scripts_pip: bool,
}

/// A layout counts as present only when both of its executables are found.
pub open spec fn layout_complete(python: bool, pip: bool) -> bool {
    python && pip
}

/// Whether a virtual environment exists at the probed root: the POSIX-style
/// pair and the Windows-style pair are checked independently, and a complete
/// pair under either layout suffices.
pub open spec fn spec_venv_exists(probe: VenvProbe) -> bool {
    layout_complete(probe.bin_python, probe.bin_pip) || layout_complete(
        probe.scripts_python,
        probe.scripts_pip,
    )
}

/// Reports whether a virtual environment already exists at the probed root.
/// Both members of a layout's pair must be present for that layout to count;
/// either layout alone is sufficient.
pub fn venv_exists(probe: &VenvProbe) -> (r: bool)
    ensures
        r == spec_venv_exists(*probe),
{
    (probe.bin_python && probe.bin_pip) || (probe.scripts_python && probe.scripts_pip)
}

/// The result of path-pair resolution: the executable directory directly
/// under the environment, and the sibling directory under `lib/` where
/// console-entry scripts land when packages are installed into a
/// library-scoped target.
#[derive(Clone, Debug)]
pub struct EnvironmentPathPair {
    /// The primary executable directory, inside the `.venv` folder.
    pub primary: String,
    /// The secondary executable directory, under the `lib` folder.
    pub secondary: String,
}

/// Locates the executable directories of the environment under a version
/// root, given which of the two layout directories the caller found on disk:
/// `has_venv_bin` for `<root>/.venv/bin` and `has_venv_scripts` for
/// `<root>/.venv/Scripts`.  The POSIX-style layout is preferred when both
/// are present.  When neither exists, resolution fails with
/// `LayoutNotFound` instead of terminating the process.
pub fn find_bin_path(vers_path: &str, has_venv_bin: bool, has_venv_scripts: bool) -> (r: Result<
    EnvironmentPathPair,
    SubstrateError,
>)
    ensures
        r is Ok <==> (has_venv_bin || has_venv_scripts),
        has_venv_bin ==> (r matches Ok(p) && p.primary@ == vers_path@ + "/.venv/bin"@
            && p.secondary@ == vers_path@ + "/lib/bin"@),
        !has_venv_bin && has_venv_scripts ==> (r matches Ok(p) && p.primary@ == vers_path@
            + "/.venv/Scripts"@ && p.secondary@ == vers_path@ + "/lib/Scripts"@),
        !has_venv_bin && !has_venv_scripts ==> r == Result::<
            EnvironmentPathPair,
            SubstrateError,
        >::Err(SubstrateError::LayoutNotFound),
{
    if has_venv_bin {
        let mut primary = String::from_str(vers_path);
        primary.append("/.venv/bin");
        let mut secondary = String::from_str(vers_path);
        secondary.append("/lib/bin");
        Ok(EnvironmentPathPair { primary, secondary })
    } else if has_venv_scripts {
        let mut primary = String::from_str(vers_path);
        primary.append("/.venv/Scripts");
        let mut secondary = String::from_str(vers_path);
        secondary.append("/lib/Scripts");
        Ok(EnvironmentPathPair { primary, secondary })
    } else {
        Err(SubstrateError::LayoutNotFound)
    }
}

/// Produces the value for the interpreter's module search-path variable from
/// the caller's attempt to encode the library directory as a native string.
/// An unrepresentable path is signalled as `PathEncodingFailed` rather than
/// stopping the process.
pub fn pythonpath_value(encoded: Option<String>) -> (r: Result<String, SubstrateError>)
    ensures
        encoded matches Some(s) ==> r matches Ok(v) && v == s,
        encoded is None ==> r == Result::<String, SubstrateError>::Err(
            SubstrateError::PathEncodingFailed,
        ),
{
    match encoded {
        Some(s) => Ok(s),
        None => Err(SubstrateError::PathEncodingFailed),
    }
}

} // verus!
