use pyflow::error::SubstrateError;
use pyflow::paths::EnvironmentPathPair;
use pyflow::paths::VenvProbe;
use pyflow::paths::find_bin_path;
use pyflow::paths::pythonpath_value;
use pyflow::paths::venv_exists;

fn probe(bin_python: bool, bin_pip: bool, scripts_python: bool, scripts_pip: bool) -> VenvProbe {
    VenvProbe { bin_python, bin_pip, scripts_python, scripts_pip }
}

#[test]
fn venv_exists_needs_both_members_of_a_pair() {
    // python present but pip missing: no environment.
    assert!(!venv_exists(&probe(true, false, false, false)));
    assert!(!venv_exists(&probe(false, true, false, false)));
    assert!(!venv_exists(&probe(false, false, true, false)));
    assert!(!venv_exists(&probe(false, false, false, true)));
}

#[test]
fn venv_exists_accepts_either_complete_layout() {
    assert!(venv_exists(&probe(true, true, false, false)));
    assert!(venv_exists(&probe(false, false, true, true)));
    assert!(venv_exists(&probe(true, true, true, true)));
    assert!(!venv_exists(&probe(false, false, false, false)));
}

#[test]
fn venv_exists_does_not_merge_the_two_layouts() {
    // One member from each layout is not an environment.
    assert!(!venv_exists(&probe(true, false, false, true)));
    assert!(!venv_exists(&probe(false, true, true, false)));
}

#[test]
fn posix_layout_resolves_to_venv_bin_and_lib_bin() {
    let pair: EnvironmentPathPair = find_bin_path("/proj/3.10", true, false).unwrap();
    assert_eq!(pair.primary, "/proj/3.10/.venv/bin");
    assert_eq!(pair.secondary, "/proj/3.10/lib/bin");
}

#[test]
fn windows_layout_resolves_to_venv_scripts_and_lib_scripts() {
    let pair = find_bin_path("/proj/3.10", false, true).unwrap();
    assert_eq!(pair.primary, "/proj/3.10/.venv/Scripts");
    assert_eq!(pair.secondary, "/proj/3.10/lib/Scripts");
}

#[test]
fn posix_layout_wins_when_both_are_present() {
    let pair = find_bin_path("/p", true, true).unwrap();
    assert_eq!(pair.primary, "/p/.venv/bin");
    assert_eq!(pair.secondary, "/p/lib/bin");
}

#[test]
fn missing_layout_is_a_typed_error_not_a_default() {
    let r = find_bin_path("/proj/3.10", false, false);
    assert_eq!(r.unwrap_err(), SubstrateError::LayoutNotFound);
}

#[test]
fn representable_path_passes_through() {
    let r = pythonpath_value(Some(String::from("/proj/__pypackages__/3.10/lib")));
    assert_eq!(r.unwrap(), "/proj/__pypackages__/3.10/lib");
}

#[test]
fn unrepresentable_path_is_a_typed_error() {
    let r = pythonpath_value(None);
    assert_eq!(r.unwrap_err(), SubstrateError::PathEncodingFailed);
}

#[test]
fn every_error_has_a_diagnostic_message() {
    assert_eq!(
        SubstrateError::LayoutNotFound.message(),
        "can't find the executable directory of the virtual environment"
    );
    assert_eq!(
        SubstrateError::PathEncodingFailed.message(),
        "problem converting a path to a native string"
    );
    assert_eq!(
        SubstrateError::RegistryFetchFailed.message(),
        "failed to obtain release data from the registry"
    );
    assert_eq!(
        SubstrateError::DirWaitTimedOut.message(),
        "timed out waiting for a directory to be created"
    );
}
