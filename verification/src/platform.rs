//! The operating system the launcher runs on, and the paths of the tools it
//! bundles in the project's virtual environment there.
use vstd::prelude::*;

verus! {

#[derive(Debug, Clone, Copy, PartialEq, Eq, Structural)]
pub enum Platform {
    Windows,
    MacOs,
    OtherUnix,
}

pub open spec fn python_config_path(p: Platform) -> Seq<char> {
    if p == Platform::Windows {
        "./.venv/Scripts/python.exe"@
    } else {
        "./.venv/bin/python"@
    }
}

pub open spec fn adb_config_path(p: Platform) -> Seq<char> {
    if p == Platform::Windows {
        "./.venv/Scripts/adb.exe"@
    } else {
        "./.venv/bin/adb"@
    }
}

pub open spec fn git_config_path(p: Platform) -> Seq<char> {
    if p == Platform::Windows {
        "./.venv/Scripts/git/cmd/git.exe"@
    } else {
        "./.venv/bin/git"@
    }
}

/// The Python interpreter path that the deploy configuration names.
pub fn platform_python_config_path(p: Platform) -> (s: &'static str)
    ensures
        s@ == python_config_path(p),
{
    if p == Platform::Windows {
        "./.venv/Scripts/python.exe"
    } else {
        "./.venv/bin/python"
    }
}

/// The adb path that the deploy configuration names.
pub fn platform_adb_config_path(p: Platform) -> (s: &'static str)
    ensures
        s@ == adb_config_path(p),
{
    if p == Platform::Windows {
        "./.venv/Scripts/adb.exe"
    } else {
        "./.venv/bin/adb"
    }
}

/// The git path that the deploy configuration names.
pub fn platform_git_config_path(p: Platform) -> (s: &'static str)
    ensures
        s@ == git_config_path(p),
{
    if p == Platform::Windows {
        "./.venv/Scripts/git/cmd/git.exe"
    } else {
        "./.venv/bin/git"
    }
}

} // verus!
