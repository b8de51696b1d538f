//! Where the launcher's runtime lives inside the repository directory: the
//! virtual environment and the tools copied into it, as path components
//! relative to the repository.
use vstd::prelude::*;
use crate::platform::Platform;
use crate::runtime::PYTHON_VERSION;
use crate::text::{chars_of, ends_with, ends_with_str, starts_with, starts_with_str};

verus! {

/// The text of each component.
pub open spec fn parts(v: Seq<&'static str>) -> Seq<Seq<char>> {
    v.map_values(|s: &'static str| s@)
}

/// The directory of the environment's programs.
pub open spec fn bin_dir_name(p: Platform) -> Seq<char> {
    if p == Platform::Windows {
        "Scripts"@
    } else {
        "bin"@
    }
}

/// A program's file name on the platform: `windows` there, `other`
/// elsewhere.
pub open spec fn exe_name(p: Platform, windows: Seq<char>, other: Seq<char>) -> Seq<char> {
    if p == Platform::Windows {
        windows
    } else {
        other
    }
}

fn bin_dir(p: Platform) -> (s: &'static str)
    ensures
        s@ == bin_dir_name(p),
{
    match p {
        Platform::Windows => "Scripts",
        _ => "bin",
    }
}

/// The virtual environment.
pub fn venv_dir() -> (r: Vec<&'static str>)
    ensures
        parts(r@) == seq![".venv"@],
{
    let r = vec![".venv"];
    assert(parts(r@) =~= seq![".venv"@]);
    r
}

/// The directory of the environment's programs.
pub fn venv_bin_dir(p: Platform) -> (r: Vec<&'static str>)
    ensures
        parts(r@) == seq![".venv"@, bin_dir_name(p)],
{
    let r = vec![".venv", bin_dir(p)];
    assert(parts(r@) =~= seq![".venv"@, bin_dir_name(p)]);
    r
}

/// The environment's interpreter.
pub fn venv_python(p: Platform) -> (r: Vec<&'static str>)
    ensures
        parts(r@) == seq![".venv"@, bin_dir_name(p), exe_name(p, "python.exe"@, "python"@)],
{
    let name = match p {
        Platform::Windows => "python.exe",
        _ => "python",
    };
    let r = vec![".venv", bin_dir(p), name];
    assert(parts(r@) =~= seq![".venv"@, bin_dir_name(p), exe_name(p, "python.exe"@, "python"@)]);
    r
}

/// Where the managed interpreters are installed.
pub fn venv_python_install_dir() -> (r: Vec<&'static str>)
    ensures
        parts(r@) == seq![".venv"@, "python"@],
{
    let r = vec![".venv", "python"];
    assert(parts(r@) =~= seq![".venv"@, "python"@]);
    r
}

/// The package manager copied into the environment.
pub fn venv_uv(p: Platform) -> (r: Vec<&'static str>)
    ensures
        parts(r@) == seq![".venv"@, bin_dir_name(p), exe_name(p, "uv.exe"@, "uv"@)],
{
    let name = match p {
        Platform::Windows => "uv.exe",
        _ => "uv",
    };
    let r = vec![".venv", bin_dir(p), name];
    assert(parts(r@) =~= seq![".venv"@, bin_dir_name(p), exe_name(p, "uv.exe"@, "uv"@)]);
    r
}

/// The Android debug bridge copied into the environment.
pub fn venv_adb(p: Platform) -> (r: Vec<&'static str>)
    ensures
        parts(r@) == seq![".venv"@, bin_dir_name(p), exe_name(p, "adb.exe"@, "adb"@)],
{
    let name = match p {
        Platform::Windows => "adb.exe",
        _ => "adb",
    };
    let r = vec![".venv", bin_dir(p), name];
    assert(parts(r@) =~= seq![".venv"@, bin_dir_name(p), exe_name(p, "adb.exe"@, "adb"@)]);
    r
}

/// The git the environment carries: a whole distribution on Windows.
pub open spec fn venv_git_parts(p: Platform) -> Seq<Seq<char>> {
    if p == Platform::Windows {
        seq![".venv"@, "Scripts"@, "git"@, "cmd"@, "git.exe"@]
    } else {
        seq![".venv"@, "bin"@, "git"@]
    }
}

/// The git the environment carries.
pub fn venv_git(p: Platform) -> (r: Vec<&'static str>)
    ensures
        parts(r@) == venv_git_parts(p),
{
    let r = match p {
        Platform::Windows => vec![".venv", "Scripts", "git", "cmd", "git.exe"],
        _ => vec![".venv", "bin", "git"],
    };
    assert(parts(r@) =~= venv_git_parts(p));
    r
}

/// Git's helper programs outside Windows.
pub fn venv_git_exec_path() -> (r: Vec<&'static str>)
    ensures
        parts(r@) == seq![".venv"@, "libexec"@, "git-core"@],
{
    let r = vec![".venv", "libexec", "git-core"];
    assert(parts(r@) =~= seq![".venv"@, "libexec"@, "git-core"@]);
    r
}

/// Git's repository templates outside Windows.
pub fn venv_git_template_dir() -> (r: Vec<&'static str>)
    ensures
        parts(r@) == seq![".venv"@, "share"@, "git-core"@, "templates"@],
{
    let r = vec![".venv", "share", "git-core", "templates"];
    assert(parts(r@) =~= seq![".venv"@, "share"@, "git-core"@, "templates"@]);
    r
}

/// The entries of the environment that are removed before it is created
/// anew; the managed interpreters stay.
pub open spec fn venv_layout_entries(p: Platform) -> Seq<Seq<char>> {
    if p == Platform::Windows {
        seq!["Scripts"@, "Lib"@, "Include"@, "pyvenv.cfg"@]
    } else {
        seq!["bin"@, "lib"@, "include"@, "pyvenv.cfg"@]
    }
}

/// The entries of the environment that are removed before it is created anew.
pub fn reset_virtualenv_layout(p: Platform) -> (r: Vec<&'static str>)
    ensures
        parts(r@) == venv_layout_entries(p),
{
    let r = match p {
        Platform::Windows => vec!["Scripts", "Lib", "Include", "pyvenv.cfg"],
        _ => vec!["bin", "lib", "include", "pyvenv.cfg"],
    };
    assert(parts(r@) =~= venv_layout_entries(p));
    r
}

/// An installed interpreter's directory: its name starts with
/// `cpython-`, the version, and `-`.
pub open spec fn is_managed_python_dir(name: Seq<char>) -> bool {
    starts_with(name, "cpython-"@ + PYTHON_VERSION@ + "-"@)
}

/// Whether an entry of the install directory holds the managed interpreter.
pub fn managed_python_dir_matches(name: &str) -> (b: bool)
    ensures
        b == is_managed_python_dir(name@),
{
    let mut prefix = String::from_str("cpython-");
    crate::text::push_str(&mut prefix, PYTHON_VERSION);
    crate::text::push_str(&mut prefix, "-");
    let v = chars_of(name);
    let pv = chars_of(prefix.as_str());
    if pv.len() > v.len() {
        return false;
    }
    let mut i: usize = 0;
    while i < pv.len()
        invariant
            i <= pv.len() <= v.len(),
            v@ == name@,
            pv@ == "cpython-"@ + PYTHON_VERSION@ + "-"@,
            forall|k: int| 0 <= k < i ==> v@[k] == pv@[k],
        decreases pv.len() - i,
    {
        if v[i] != pv[i] {
            assert(v@.take(pv@.len() as int)[i as int] != pv@[i as int]);
            return false;
        }
        i = i + 1;
    }
    assert(v@.take(pv@.len() as int) =~= pv@);
    true
}

/// Where the interpreter sits inside its directory, in the order tried.
pub open spec fn managed_python_candidates_parts(p: Platform) -> Seq<Seq<Seq<char>>> {
    if p == Platform::Windows {
        seq![seq!["python.exe"@]]
    } else {
        seq![seq!["bin"@, "python3.14"@], seq!["bin"@, "python"@]]
    }
}

/// Where the interpreter sits inside its directory, in the order tried.
pub fn managed_python_candidates(p: Platform) -> (r: Vec<Vec<&'static str>>)
    ensures
        r@.map_values(|c: Vec<&'static str>| parts(c@)) == managed_python_candidates_parts(p),
{
    match p {
        Platform::Windows => {
            let a = vec!["python.exe"];
            assert(parts(a@) =~= seq!["python.exe"@]);
            let r = vec![a];
            assert(r@.map_values(|c: Vec<&'static str>| parts(c@)) =~= managed_python_candidates_parts(p));
            r
        },
        _ => {
            let a = vec!["bin", "python3.14"];
            let b = vec!["bin", "python"];
            assert(parts(a@) =~= seq!["bin"@, "python3.14"@]);
            assert(parts(b@) =~= seq!["bin"@, "python"@]);
            let r = vec![a, b];
            assert(r@.map_values(|c: Vec<&'static str>| parts(c@)) =~= managed_python_candidates_parts(p));
            r
        },
    }
}

/// A packaged file copied along with a tool: its name starts with `prefix`
/// and ends with `extension`.
pub fn packaged_tool_matches(name: &str, prefix: &str, extension: &str) -> (b: bool)
    ensures
        b == (starts_with(name@, prefix@) && ends_with(name@, extension@)),
{
    let v = chars_of(name);
    starts_with_str(&v, prefix) && ends_with_str(&v, extension)
}

/// The directories put in front of the search path, in order: the
/// environment's programs, and on Windows git's commands too.
pub open spec fn path_dirs_parts(p: Platform) -> Seq<Seq<Seq<char>>> {
    if p == Platform::Windows {
        seq![seq![".venv"@, "Scripts"@], seq![".venv"@, "Scripts"@, "git"@, "cmd"@]]
    } else {
        seq![seq![".venv"@, "bin"@]]
    }
}

/// The directories put in front of the search path, in order.
pub fn launcher_path_dirs(p: Platform) -> (r: Vec<Vec<&'static str>>)
    ensures
        r@.map_values(|c: Vec<&'static str>| parts(c@)) == path_dirs_parts(p),
{
    match p {
        Platform::Windows => {
            let a = vec![".venv", "Scripts"];
            let b = vec![".venv", "Scripts", "git", "cmd"];
            assert(parts(a@) =~= seq![".venv"@, "Scripts"@]);
            assert(parts(b@) =~= seq![".venv"@, "Scripts"@, "git"@, "cmd"@]);
            let r = vec![a, b];
            assert(r@.map_values(|c: Vec<&'static str>| parts(c@)) =~= path_dirs_parts(p));
            r
        },
        _ => {
            let a = vec![".venv", "bin"];
            assert(parts(a@) =~= seq![".venv"@, "bin"@]);
            let r = vec![a];
            assert(r@.map_values(|c: Vec<&'static str>| parts(c@)) =~= path_dirs_parts(p));
            r
        },
    }
}

} // verus!
