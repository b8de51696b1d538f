//! The Python runtime the launcher manages: which interpreter versions a
//! virtual environment may keep, and which entries of the runtime
//! directory survive a rebuild.
use vstd::prelude::*;
use crate::deploy::strings_of;
use crate::platform::Platform;
use crate::text::{
    chars_eq, chars_of, eq_str, lower, lower_chars, parse_unsigned, parse_unsigned_chars, split_on,
    split_on_chars, trim, trim_chars,
};

verus! {

/// The interpreter version the launcher installs.
pub const PYTHON_VERSION: &'static str = "3.14.6";

/// The oldest interpreter a virtual environment may keep: major, minor, patch.
pub const MIN_REUSABLE_VENV_PYTHON_MAJOR: u16 = 3;

pub const MIN_REUSABLE_VENV_PYTHON_MINOR: u16 = 14;

pub const MIN_REUSABLE_VENV_PYTHON_PATCH: u16 = 5;

/// A version as `major.minor.patch` after trimming: exactly three parts,
/// each what `u16::from_str` accepts.
pub open spec fn parsed_python_version(s: Seq<char>) -> Option<(u16, u16, u16)> {
    let parts = split_on(trim(s), '.');
    if parts.len() == 3 && parse_unsigned(parts[0], 65535) is Some && parse_unsigned(
        parts[1],
        65535,
    ) is Some && parse_unsigned(parts[2], 65535) is Some {
        Some(
            (
                parse_unsigned(parts[0], 65535)->0 as u16,
                parse_unsigned(parts[1], 65535)->0 as u16,
                parse_unsigned(parts[2], 65535)->0 as u16,
            ),
        )
    } else {
        None
    }
}

/// Tuples compared as `Ord` for tuples compares them: field by field.
pub open spec fn version_less(a: (u16, u16, u16), b: (u16, u16, u16)) -> bool {
    a.0 < b.0 || (a.0 == b.0 && (a.1 < b.1 || (a.1 == b.1 && a.2 < b.2)))
}

pub open spec fn min_reusable_version() -> (u16, u16, u16) {
    (MIN_REUSABLE_VENV_PYTHON_MAJOR, MIN_REUSABLE_VENV_PYTHON_MINOR, MIN_REUSABLE_VENV_PYTHON_PATCH)
}

/// Reads the version that the interpreter printed.
pub fn parse_python_version(version: &str) -> (r: Option<(u16, u16, u16)>)
    ensures
        r == parsed_python_version(version@),
{
    let cs = chars_of(version);
    let t = trim_chars(&cs);
    let parts = split_on_chars(&t, '.');
    assert(parts@.len() == split_on(t@, '.').len());
    if parts.len() != 3 {
        return None;
    }
    assert(parts@[0]@ == split_on(t@, '.')[0]);
    assert(parts@[1]@ == split_on(t@, '.')[1]);
    assert(parts@[2]@ == split_on(t@, '.')[2]);
    let major = match parse_unsigned_chars(&parts[0], 65535) {
        Some(n) => n,
        None => {
            return None;
        },
    };
    let minor = match parse_unsigned_chars(&parts[1], 65535) {
        Some(n) => n,
        None => {
            return None;
        },
    };
    let patch = match parse_unsigned_chars(&parts[2], 65535) {
        Some(n) => n,
        None => {
            return None;
        },
    };
    Some((major as u16, minor as u16, patch as u16))
}

/// A virtual environment whose interpreter is older than the oldest
/// reusable one is built anew.
pub fn venv_python_version_requires_rebuild(version: (u16, u16, u16)) -> (b: bool)
    ensures
        b == version_less(version, min_reusable_version()),
{
    let (a, b, c) = version;
    a < MIN_REUSABLE_VENV_PYTHON_MAJOR || (a == MIN_REUSABLE_VENV_PYTHON_MAJOR && (b
        < MIN_REUSABLE_VENV_PYTHON_MINOR || (b == MIN_REUSABLE_VENV_PYTHON_MINOR && c
        < MIN_REUSABLE_VENV_PYTHON_PATCH)))
}

/// An interpreter of the 3.14 line, no older than the oldest reusable one.
pub fn is_reusable_venv_python_version(version: (u16, u16, u16)) -> (b: bool)
    ensures
        b == (version.0 == 3 && version.1 == 14 && !version_less(version, min_reusable_version())),
{
    version.0 == 3 && version.1 == 14 && !venv_python_version_requires_rebuild(version)
}

/// Whether an entry of the runtime directory survives a rebuild, by its
/// file name (`None`: a name that is not valid Unicode, or no name): the
/// user's data, the uninstaller, and the launcher itself stay.
pub open spec fn kept_runtime_entry(
    name: Option<Seq<char>>,
    current_exe_name: Seq<char>,
    platform: Platform,
) -> bool {
    match name {
        None => true,
        Some(n) => {
            let l = lower(n);
            ||| l == "deploy"@
            ||| l == "log"@
            ||| l == "config"@
            ||| l == "bootstrap"@
            ||| l == "unins000.dat"@
            ||| l == "unins000.exe"@
            ||| (platform == Platform::MacOs && l == ".venv"@)
            ||| l == "alas-launcher.exe"@
            ||| l == current_exe_name
        },
    }
}

/// Decides whether a runtime entry is kept; `current_exe_name` is the
/// launcher's own file name in lower case.
pub fn should_keep_runtime_entry(name: Option<&str>, current_exe_name: &str, platform: Platform) -> (b:
    bool)
    ensures
        b == kept_runtime_entry(
            match name {
                Some(n) => Some(n@),
                None => None,
            },
            current_exe_name@,
            platform,
        ),
{
    let n = match name {
        Some(n) => n,
        None => {
            return true;
        },
    };
    let l = lower_chars(&chars_of(n));
    eq_str(&l, "deploy") || eq_str(&l, "log") || eq_str(&l, "config") || eq_str(&l, "bootstrap")
        || eq_str(&l, "unins000.dat") || eq_str(&l, "unins000.exe") || (matches!(
        platform,
        Platform::MacOs
    ) && eq_str(&l, ".venv")) || eq_str(&l, "alas-launcher.exe") || eq_str(&l, current_exe_name)
}

/// Whether the path with components `path` lies at or under the one with
/// components `parent` (`Path::starts_with`, component by component).
pub open spec fn is_under(path: Seq<Seq<char>>, parent: Seq<Seq<char>>) -> bool {
    parent.len() <= path.len() && path.take(parent.len() as int) == parent
}

fn components_eq(a: &Vec<String>, b: &Vec<String>, start: usize, len: usize) -> (r: bool)
    requires
        start + len <= a.len(),
        len <= b.len(),
    ensures
        r == (strings_of(a@).subrange(start as int, start + len) == strings_of(b@).take(len as int)),
{
    let mut i: usize = 0;
    while i < len
        invariant
            i <= len,
            start + len <= a.len(),
            len <= b.len(),
            strings_of(a@).subrange(start as int, start + i) == strings_of(b@).take(i as int),
        decreases len - i,
    {
        let x = chars_of(a[start + i].as_str());
        let y = chars_of(b[i].as_str());
        if !chars_eq(&x, &y) {
            assert(strings_of(a@).subrange(start as int, start + len)[i as int] != strings_of(b@).take(len as int)[i as int]);
            return false;
        }
        assert(strings_of(a@).subrange(start as int, start + i + 1) =~= strings_of(a@).subrange(start as int, start + i).push(a@[start + i]@));
        assert(strings_of(b@).take(i + 1) =~= strings_of(b@).take(i as int).push(b@[i as int]@));
        i = i + 1;
    }
    true
}

/// Whether a process's file or directory, with components `path` once
/// resolved, lies inside the runtime directory with components `parent`.
pub fn path_starts_with(path: &Vec<String>, parent: &Vec<String>) -> (b: bool)
    ensures
        b == is_under(strings_of(path@), strings_of(parent@)),
{
    if parent.len() > path.len() {
        return false;
    }
    let r = components_eq(path, parent, 0, parent.len());
    assert(strings_of(path@).subrange(0, parent.len() as int) =~= strings_of(path@).take(parent.len() as int));
    assert(strings_of(parent@).take(parent.len() as int) =~= strings_of(parent@));
    r
}

/// Whether a path lies inside `parent` and is not `parent` itself, as the
/// virtual environment must before the recovery removes it.
pub fn path_strictly_inside(path: &Vec<String>, parent: &Vec<String>) -> (b: bool)
    ensures
        b == (is_under(strings_of(path@), strings_of(parent@)) && strings_of(path@) != strings_of(parent@)),
{
    let under = path_starts_with(path, parent);
    if under && path.len() == parent.len() {
        assert(strings_of(path@) =~= strings_of(path@).take(parent.len() as int));
        return false;
    }
    assert(strings_of(path@).len() == path.len() && strings_of(parent@).len() == parent.len());
    under
}

/// Whether the runtime directory (components `repo_dir`) is the launcher's
/// own, where the launcher runs from `exe_dir`: the same directory, or on
/// macOS the `AzurLaneAutoScript` directory beside the app's `MacOS`
/// directory. A rebuild cleans nothing else.
pub open spec fn cleanup_target_is_launchers(
    repo_dir: Seq<Seq<char>>,
    exe_dir: Seq<Seq<char>>,
    platform: Platform,
) -> bool {
    ||| repo_dir == exe_dir
    ||| (platform == Platform::MacOs && exe_dir.len() >= 2 && exe_dir.last() == "MacOS"@ && repo_dir
        == exe_dir.drop_last().push("AzurLaneAutoScript"@))
}

/// Decides whether a rebuild may clean `repo_dir`.
pub fn cleanup_target_belongs_to_launcher(repo_dir: &Vec<String>, exe_dir: &Vec<String>, platform: Platform) -> (b:
    bool)
    ensures
        b == cleanup_target_is_launchers(strings_of(repo_dir@), strings_of(exe_dir@), platform),
{
    let ghost r = strings_of(repo_dir@);
    let ghost e = strings_of(exe_dir@);
    if repo_dir.len() == exe_dir.len() {
        let same = components_eq(repo_dir, exe_dir, 0, exe_dir.len());
        assert(r.subrange(0, exe_dir.len() as int) =~= r);
        assert(e.take(exe_dir.len() as int) =~= e);
        if same {
            return true;
        }
    }
    proof {
        reveal_strlit("MacOS");
        reveal_strlit("AzurLaneAutoScript");
    }
    assert(r.len() == repo_dir.len() && e.len() == exe_dir.len());
    assert(r != e);
    if !matches!(platform, Platform::MacOs) || exe_dir.len() < 2 {
        return false;
    }
    if repo_dir.len() != exe_dir.len() {
        assert(e.drop_last().push("AzurLaneAutoScript"@).len() == e.len());
        return false;
    }
    let n = exe_dir.len();
    let last = chars_of(exe_dir[n - 1].as_str());
    if !eq_str(&last, "MacOS") {
        return false;
    }
    let front = components_eq(repo_dir, exe_dir, 0, n - 1);
    let tail = chars_of(repo_dir[n - 1].as_str());
    let name = eq_str(&tail, "AzurLaneAutoScript");
    assert(r.subrange(0, n - 1) =~= r.drop_last());
    assert(e.take(n - 1) =~= e.drop_last());
    assert(r =~= r.drop_last().push(r.last()));
    let ghost target = e.drop_last().push("AzurLaneAutoScript"@);
    assert(target.drop_last() =~= e.drop_last());
    assert(target.last() == "AzurLaneAutoScript"@);
    if front && name {
        assert(r =~= target);
    } else if !front {
        assert(r.drop_last() != target.drop_last());
        assert(r != target);
    } else {
        assert(r.last() != target.last());
        assert(r != target);
    }
    front && name
}

} // verus!
