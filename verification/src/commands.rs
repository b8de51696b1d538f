//! The helper programs the launcher runs while it prepares the runtime:
//! their arguments and the changes to the environment they inherit. A
//! path (`P`) is handed through as it is; running the programs happens
//! outside.
use vstd::prelude::*;
use vstd::string::*;
use crate::runtime::PYTHON_VERSION;

verus! {

/// A program argument, or the value of an environment variable.
#[derive(Debug)]
pub enum CommandArg<P> {
    Text(String),
    Path(P),
}

/// A change to the environment a program inherits.
#[derive(Debug)]
pub enum EnvEdit<P> {
    Assign(String, CommandArg<P>),
    Unset(String),
}

/// A program to run: the program, its arguments, and the changes to its
/// environment, applied in order.
#[derive(Debug)]
pub struct CommandSpec<P> {
    pub program: P,
    pub args: Vec<CommandArg<P>>,
    pub env: Vec<EnvEdit<P>>,
}

pub open spec fn is_text<P>(a: CommandArg<P>, s: Seq<char>) -> bool {
    a matches CommandArg::Text(t) && t@ == s
}

pub open spec fn is_path<P>(a: CommandArg<P>, p: P) -> bool {
    a == CommandArg::<P>::Path(p)
}

pub open spec fn sets_text<P>(e: EnvEdit<P>, key: Seq<char>, value: Seq<char>) -> bool {
    e matches EnvEdit::Assign(k, v) && k@ == key && is_text(v, value)
}

pub open spec fn sets_path<P>(e: EnvEdit<P>, key: Seq<char>, p: P) -> bool {
    e matches EnvEdit::Assign(k, v) && k@ == key && is_path(v, p)
}

pub open spec fn removes<P>(e: EnvEdit<P>, key: Seq<char>) -> bool {
    e matches EnvEdit::Unset(k) && k@ == key
}

/// The arguments are these texts, in order.
pub open spec fn texts_are<P>(args: Seq<CommandArg<P>>, texts: Seq<Seq<char>>) -> bool {
    args.len() == texts.len() && forall|i: int| 0 <= i < args.len() ==> is_text(#[trigger] args[i], texts[i])
}

/// The edits remove these variables, in order.
pub open spec fn removes_all<P>(edits: Seq<EnvEdit<P>>, keys: Seq<Seq<char>>) -> bool {
    edits.len() == keys.len() && forall|i: int| 0 <= i < edits.len() ==> removes(#[trigger] edits[i], keys[i])
}

pub open spec fn strs(v: Seq<&'static str>) -> Seq<Seq<char>> {
    v.map_values(|s: &'static str| s@)
}

/// Variables that would point uv at another package index.
pub open spec fn uv_index_keys() -> Seq<Seq<char>> {
    seq![
        "UV_INDEX"@,
        "UV_DEFAULT_INDEX"@,
        "UV_INDEX_URL"@,
        "UV_EXTRA_INDEX_URL"@,
        "PIP_INDEX_URL"@,
        "PIP_EXTRA_INDEX_URL"@,
    ]
}

/// Proxy variables, in both cases.
pub open spec fn proxy_keys() -> Seq<Seq<char>> {
    seq![
        "ALL_PROXY"@,
        "all_proxy"@,
        "HTTP_PROXY"@,
        "http_proxy"@,
        "HTTPS_PROXY"@,
        "https_proxy"@,
        "PIP_PROXY"@,
        "pip_proxy"@,
    ]
}

/// Variables that would make Python use another installation or
/// environment.
pub open spec fn python_env_keys() -> Seq<Seq<char>> {
    seq![
        "PYTHONHOME"@,
        "pythonhome"@,
        "PYTHONPATH"@,
        "pythonpath"@,
        "VIRTUAL_ENV"@,
        "virtual_env"@,
        "__PYVENV_LAUNCHER__"@,
    ]
}

/// Mirrors of the standalone Python builds, tried in order.
pub open spec fn default_python_mirrors() -> Seq<Seq<char>> {
    seq![
        "https://registry.npmmirror.com/-/binary/python-build-standalone/"@,
        "https://mirror.nju.edu.cn/github-release/astral-sh/python-build-standalone/"@,
        "https://python-standalone.org/mirror/astral-sh/python-build-standalone/"@,
        "https://downloads.astral.sh/python/"@,
        "https://github.com/astral-sh/python-build-standalone/releases/download/"@,
    ]
}

/// The first mirror, used unless the user chose one.
pub const DEFAULT_PYTHON_MIRROR: &'static str = "https://registry.npmmirror.com/-/binary/python-build-standalone/";

fn text<P>(s: &str) -> (a: CommandArg<P>)
    ensures
        is_text(a, s@),
{
    CommandArg::Text(String::from_str(s))
}

fn set_text<P>(key: &str, value: &str) -> (e: EnvEdit<P>)
    ensures
        sets_text(e, key@, value@),
{
    EnvEdit::Assign(String::from_str(key), CommandArg::Text(String::from_str(value)))
}

fn texts<P>(items: Vec<&'static str>) -> (r: Vec<CommandArg<P>>)
    ensures
        texts_are(r@, strs(items@)),
{
    let mut r: Vec<CommandArg<P>> = Vec::new();
    let mut i: usize = 0;
    while i < items.len()
        invariant
            i <= items.len(),
            r@.len() == i,
            forall|k: int| 0 <= k < i ==> is_text(#[trigger] r@[k], items@[k]@),
        decreases items.len() - i,
    {
        r.push(text(items[i]));
        i = i + 1;
    }
    r
}

fn removals<P>(keys: Vec<&'static str>) -> (r: Vec<EnvEdit<P>>)
    ensures
        removes_all(r@, strs(keys@)),
{
    let mut r: Vec<EnvEdit<P>> = Vec::new();
    let mut i: usize = 0;
    while i < keys.len()
        invariant
            i <= keys.len(),
            r@.len() == i,
            forall|k: int| 0 <= k < i ==> removes(#[trigger] r@[k], keys@[k]@),
        decreases keys.len() - i,
    {
        r.push(EnvEdit::Unset(String::from_str(keys[i])));
        i = i + 1;
    }
    r
}

fn append<T>(a: &mut Vec<T>, b: Vec<T>)
    ensures
        final(a)@ == old(a)@ + b@,
{
    let mut b = b;
    a.append(&mut b);
}

/// Drops the variables that would point uv at another package index.
pub fn ignore_uv_index_env<P>() -> (r: Vec<EnvEdit<P>>)
    ensures
        removes_all(r@, uv_index_keys()),
{
    let keys = vec![
        "UV_INDEX",
        "UV_DEFAULT_INDEX",
        "UV_INDEX_URL",
        "UV_EXTRA_INDEX_URL",
        "PIP_INDEX_URL",
        "PIP_EXTRA_INDEX_URL",
    ];
    assert(strs(keys@) =~= uv_index_keys());
    removals(keys)
}

/// The edits that make a program connect directly: the proxy variables
/// dropped, then `NO_PROXY` and `no_proxy` set to `*`.
pub open spec fn is_proxy_bypass<P>(edits: Seq<EnvEdit<P>>) -> bool {
    &&& edits.len() == 10
    &&& removes_all(edits.take(8), proxy_keys())
    &&& sets_text(edits[8], "NO_PROXY"@, "*"@)
    &&& sets_text(edits[9], "no_proxy"@, "*"@)
}

/// Makes a program connect directly, past any proxy.
pub fn bypass_proxy_for_child<P>() -> (r: Vec<EnvEdit<P>>)
    ensures
        is_proxy_bypass(r@),
{
    let keys = vec![
        "ALL_PROXY",
        "all_proxy",
        "HTTP_PROXY",
        "http_proxy",
        "HTTPS_PROXY",
        "https_proxy",
        "PIP_PROXY",
        "pip_proxy",
    ];
    assert(strs(keys@) =~= proxy_keys());
    let mut r = removals(keys);
    let ghost dropped = r@;
    r.push(set_text("NO_PROXY", "*"));
    r.push(set_text("no_proxy", "*"));
    assert(r@.take(8) =~= dropped);
    r
}

/// Keeps a Python program from picking up another installation.
pub fn isolate_python_child_environment<P>() -> (r: Vec<EnvEdit<P>>)
    ensures
        removes_all(r@, python_env_keys()),
{
    let keys = vec![
        "PYTHONHOME",
        "pythonhome",
        "PYTHONPATH",
        "pythonpath",
        "VIRTUAL_ENV",
        "virtual_env",
        "__PYVENV_LAUNCHER__",
    ];
    assert(strs(keys@) =~= python_env_keys());
    removals(keys)
}

/// The environment for uv working with the managed interpreters in
/// `install_dir`: no progress bars, no interpreter chosen from outside,
/// isolated, past any proxy, and the first mirror unless the user set one
/// (`mirror_configured`).
pub open spec fn is_uv_python_env<P>(edits: Seq<EnvEdit<P>>, install_dir: P, mirror_configured: bool) -> bool {
    &&& edits.len() == (if mirror_configured {
        20int
    } else {
        21int
    })
    &&& sets_text(edits[0], "UV_NO_PROGRESS"@, "1"@)
    &&& removes(edits[1], "UV_PYTHON"@)
    &&& sets_path(edits[2], "UV_PYTHON_INSTALL_DIR"@, install_dir)
    &&& removes_all(edits.subrange(3, 10), python_env_keys())
    &&& is_proxy_bypass(edits.subrange(10, 20))
    &&& !mirror_configured ==> sets_text(
        edits[20],
        "UV_PYTHON_INSTALL_MIRROR"@,
        default_python_mirrors()[0],
    )
}

/// The environment for uv working with the managed interpreters.
pub fn uv_python_env_with_install_dir<P>(install_dir: P, mirror_configured: bool) -> (r: Vec<
    EnvEdit<P>,
>)
    ensures
        is_uv_python_env(r@, install_dir, mirror_configured),
{
    let mut r: Vec<EnvEdit<P>> = Vec::new();
    r.push(set_text("UV_NO_PROGRESS", "1"));
    r.push(EnvEdit::Unset(String::from_str("UV_PYTHON")));
    r.push(EnvEdit::Assign(String::from_str("UV_PYTHON_INSTALL_DIR"), CommandArg::Path(install_dir)));
    let ghost head = r@;
    let iso = isolate_python_child_environment();
    let ghost iso_v = iso@;
    append(&mut r, iso);
    let bypass = bypass_proxy_for_child();
    let ghost bypass_v = bypass@;
    append(&mut r, bypass);
    if !mirror_configured {
        r.push(set_text("UV_PYTHON_INSTALL_MIRROR", DEFAULT_PYTHON_MIRROR));
    }
    assert(r@.subrange(3, 10) =~= iso_v);
    assert(r@.subrange(10, 20) =~= bypass_v);
    assert(r@[0] == head[0] && r@[1] == head[1] && r@[2] == head[2]);
    r
}

/// The mirrors to fetch an interpreter from: the one the user set, or else
/// the default ones.
pub fn uv_python_install_mirrors(configured: Option<String>) -> (r: Vec<String>)
    ensures
        match configured {
            Some(m) => r@.len() == 1 && r@[0] == m,
            None => r@.map_values(|s: String| s@) == default_python_mirrors(),
        },
{
    match configured {
        Some(m) => vec![m],
        None => {
            let r = vec![
                String::from_str(DEFAULT_PYTHON_MIRROR),
                String::from_str(
                    "https://mirror.nju.edu.cn/github-release/astral-sh/python-build-standalone/",
                ),
                String::from_str(
                    "https://python-standalone.org/mirror/astral-sh/python-build-standalone/",
                ),
                String::from_str("https://downloads.astral.sh/python/"),
                String::from_str(
                    "https://github.com/astral-sh/python-build-standalone/releases/download/",
                ),
            ];
            assert(r@.map_values(|s: String| s@) =~= default_python_mirrors());
            r
        },
    }
}

/// `uv sync` for the project with the managed interpreter `python`,
/// resolving against `index`.
pub fn uv_sync_command_with_paths<P: Clone>(
    bootstrap_uv: P,
    python: P,
    python_install_dir: P,
    index: &str,
    mirror_configured: bool,
) -> (c: CommandSpec<P>)
    ensures
        c.program == bootstrap_uv,
        c.args@.len() == 7,
        texts_are(c.args@.take(4), seq!["sync"@, "--no-dev"@, "--no-install-project"@, "--python"@]),
        is_path(c.args@[4], python),
        is_text(c.args@[5], "--default-index"@),
        is_text(c.args@[6], index@),
        c.env@.len() == if mirror_configured { 28int } else { 29int },
        sets_text(c.env@[0], "UV_NO_PROGRESS"@, "1"@),
        c.env@[1] matches EnvEdit::Assign(k, v) && k@ == "UV_PYTHON_INSTALL_DIR"@ && (v matches CommandArg::Path(d) && cloned(python_install_dir, d)),
        exists|d: P| cloned(python_install_dir, d) && is_uv_python_env(c.env@.subrange(2, c.env@.len() - 6), d, mirror_configured),
        removes_all(c.env@.skip(c.env@.len() - 6), uv_index_keys()),
{
    let mut args = texts(vec!["sync", "--no-dev", "--no-install-project", "--python"]);
    let ghost head = args@;
    args.push(CommandArg::Path(python));
    args.push(text("--default-index"));
    args.push(text(index));
    assert(args@.take(4) =~= head);
    let mut env: Vec<EnvEdit<P>> = Vec::new();
    env.push(set_text("UV_NO_PROGRESS", "1"));
    let d1 = python_install_dir.clone();
    env.push(EnvEdit::Assign(String::from_str("UV_PYTHON_INSTALL_DIR"), CommandArg::Path(d1)));
    let d2 = python_install_dir.clone();
    let uv_env = uv_python_env_with_install_dir(d2, mirror_configured);
    let ghost uv_v = uv_env@;
    append(&mut env, uv_env);
    let ignore = ignore_uv_index_env();
    let ghost ignore_v = ignore@;
    append(&mut env, ignore);
    assert(env@.subrange(2, env@.len() - 6) =~= uv_v);
    assert(env@.skip(env@.len() - 6) =~= ignore_v);
    assert(cloned(python_install_dir, d2));
    assert(is_uv_python_env(env@.subrange(2, env@.len() - 6), d2, mirror_configured));
    CommandSpec { program: bootstrap_uv, args, env }
}

/// `uv pip install requests` into the environment's interpreter, from
/// `index`, isolated and past any proxy.
pub fn requests_install_command<P>(bootstrap_uv: P, python: P, python_install_dir: P, index: &str) -> (c:
    CommandSpec<P>)
    ensures
        c.program == bootstrap_uv,
        c.args@.len() == 8,
        texts_are(c.args@.take(3), seq!["pip"@, "install"@, "--python"@]),
        is_path(c.args@[3], python),
        texts_are(c.args@.skip(4), seq!["requests"@, "--default-index"@, index@, "--no-config"@]),
        c.env@.len() == 25,
        sets_text(c.env@[0], "UV_NO_PROGRESS"@, "1"@),
        sets_path(c.env@[1], "UV_PYTHON_INSTALL_DIR"@, python_install_dir),
        removes_all(c.env@.subrange(2, 8), uv_index_keys()),
        removes_all(c.env@.subrange(8, 15), python_env_keys()),
        is_proxy_bypass(c.env@.subrange(15, 25)),
{
    let mut args = texts(vec!["pip", "install", "--python"]);
    let ghost head = args@;
    args.push(CommandArg::Path(python));
    args.push(text("requests"));
    args.push(text("--default-index"));
    args.push(text(index));
    args.push(text("--no-config"));
    assert(args@.take(3) =~= head);
    let mut env: Vec<EnvEdit<P>> = Vec::new();
    env.push(set_text("UV_NO_PROGRESS", "1"));
    env.push(EnvEdit::Assign(String::from_str("UV_PYTHON_INSTALL_DIR"), CommandArg::Path(python_install_dir)));
    let a = ignore_uv_index_env();
    let ghost av = a@;
    append(&mut env, a);
    let b = isolate_python_child_environment();
    let ghost bv = b@;
    append(&mut env, b);
    let d = bypass_proxy_for_child();
    let ghost dv = d@;
    append(&mut env, d);
    assert(env@.subrange(2, 8) =~= av);
    assert(env@.subrange(8, 15) =~= bv);
    assert(env@.subrange(15, 25) =~= dv);
    CommandSpec { program: bootstrap_uv, args, env }
}

/// `uv python install` of the launcher's interpreter version into
/// `python_install_dir`, from `mirror`.
pub fn python_install_command<P: Clone>(
    bootstrap_uv: P,
    python_install_dir: P,
    mirror: &str,
    mirror_configured: bool,
) -> (c: CommandSpec<P>)
    ensures
        c.program == bootstrap_uv,
        c.args@.len() == 9,
        texts_are(c.args@.take(3), seq!["python"@, "install"@, "--install-dir"@]),
        c.args@[3] matches CommandArg::Path(d) && cloned(python_install_dir, d),
        texts_are(
            c.args@.skip(4),
            seq!["--no-bin"@, "--managed-python"@, "--mirror"@, mirror@, PYTHON_VERSION@],
        ),
        exists|d: P| cloned(python_install_dir, d) && is_uv_python_env(c.env@, d, mirror_configured),
{
    let mut args = texts(vec!["python", "install", "--install-dir"]);
    let ghost head = args@;
    let d1 = python_install_dir.clone();
    args.push(CommandArg::Path(d1));
    args.push(text("--no-bin"));
    args.push(text("--managed-python"));
    args.push(text("--mirror"));
    args.push(text(mirror));
    args.push(text(PYTHON_VERSION));
    assert(args@.take(3) =~= head);
    let d2 = python_install_dir.clone();
    let env = uv_python_env_with_install_dir(d2, mirror_configured);
    assert(cloned(python_install_dir, d2));
    CommandSpec { program: bootstrap_uv, args, env }
}

/// `uv venv` that (re)creates the environment at `venv` around the managed
/// interpreter.
pub fn venv_create_command<P>(
    bootstrap_uv: P,
    managed_python: P,
    venv: P,
    python_install_dir: P,
    mirror_configured: bool,
) -> (c: CommandSpec<P>)
    ensures
        c.program == bootstrap_uv,
        c.args@.len() == 6,
        texts_are(
            c.args@.take(4),
            seq!["venv"@, "--allow-existing"@, "--relocatable"@, "--python"@],
        ),
        is_path(c.args@[4], managed_python),
        is_path(c.args@[5], venv),
        is_uv_python_env(c.env@, python_install_dir, mirror_configured),
{
    let mut args = texts(vec!["venv", "--allow-existing", "--relocatable", "--python"]);
    let ghost head = args@;
    args.push(CommandArg::Path(managed_python));
    args.push(CommandArg::Path(venv));
    assert(args@.take(4) =~= head);
    let env = uv_python_env_with_install_dir(python_install_dir, mirror_configured);
    CommandSpec { program: bootstrap_uv, args, env }
}

/// `uv cache clean`, isolated from any interpreter chosen outside.
pub fn uv_cache_clean_command<P>(uv: P) -> (c: CommandSpec<P>)
    ensures
        c.program == uv,
        texts_are(c.args@, seq!["cache"@, "clean"@]),
        c.env@.len() == 9,
        sets_text(c.env@[0], "UV_NO_PROGRESS"@, "1"@),
        removes(c.env@[1], "UV_PYTHON"@),
        removes_all(c.env@.skip(2), python_env_keys()),
{
    let args = texts(vec!["cache", "clean"]);
    assert(strs(seq!["cache", "clean"]) =~= seq!["cache"@, "clean"@]);
    let mut env: Vec<EnvEdit<P>> = Vec::new();
    env.push(set_text("UV_NO_PROGRESS", "1"));
    env.push(EnvEdit::Unset(String::from_str("UV_PYTHON")));
    let b = isolate_python_child_environment();
    let ghost bv = b@;
    append(&mut env, b);
    assert(env@.skip(2) =~= bv);
    CommandSpec { program: uv, args, env }
}

/// The line the interpreter runs to print its version.
pub const VERSION_QUERY_SCRIPT: &'static str = "import sys; print('.'.join(map(str, sys.version_info[:3])))";

/// The line that checks that the `requests` package is installed.
pub const IMPORT_REQUESTS_SCRIPT: &'static str = "import requests";

/// The line that rolls back a configuration write that failed half-way.
pub const ATOMIC_CLEANUP_SCRIPT: &'static str = "import sys; from deploy.atomic import atomic_failure_cleanup; atomic_failure_cleanup(sys.argv[1])";

/// The repository update: the deploy script's git steps, with fetch
/// progress turned on.
pub const GIT_UPDATE_SCRIPT: &'static str = "
import deploy.git
def decorate_execute(fn):
    def new_fn(*args, **kwargs):
        if len(args) >= 1 and ' fetch ' in args[0] and '--progress' not in args[0]:
            args = (args[0].replace(' fetch ', ' fetch --progress '),) + args[1:]
        return fn(*args, **kwargs)
    return new_fn
gm = deploy.git.GitManager()
gm.execute = decorate_execute(gm.execute)
gm.git_install()
";

/// The interpreter running one line of Python, isolated from any other
/// installation; `extra` follows the line as arguments.
pub fn python_script_command<P>(python: P, script: &str, extra: Vec<String>) -> (c: CommandSpec<P>)
    ensures
        c.program == python,
        c.args@.len() == 2 + extra@.len(),
        is_text(c.args@[0], "-c"@),
        is_text(c.args@[1], script@),
        forall|i: int| 0 <= i < extra@.len() ==> is_text(#[trigger] c.args@[2 + i], extra@[i]@),
        removes_all(c.env@, python_env_keys()),
{
    let mut args: Vec<CommandArg<P>> = Vec::new();
    args.push(text("-c"));
    args.push(text(script));
    let mut i: usize = 0;
    while i < extra.len()
        invariant
            i <= extra.len(),
            args@.len() == 2 + i,
            is_text(args@[0], "-c"@),
            is_text(args@[1], script@),
            forall|k: int| 0 <= k < i ==> is_text(#[trigger] args@[2 + k], extra@[k]@),
        decreases extra.len() - i,
    {
        args.push(CommandArg::Text(extra[i].clone()));
        i = i + 1;
    }
    CommandSpec { program: python, args, env: isolate_python_child_environment() }
}

/// The repository update, run by the environment's interpreter with the
/// bootstrap uv at hand, isolated and past any proxy.
pub fn git_update_command<P>(python: P, bootstrap_uv: P) -> (c: CommandSpec<P>)
    ensures
        c.program == python,
        texts_are(c.args@, seq!["-c"@, GIT_UPDATE_SCRIPT@]),
        c.env@.len() == 18,
        sets_path(c.env@[0], "AZURPILOT_BOOTSTRAP_UV"@, bootstrap_uv),
        removes_all(c.env@.subrange(1, 8), python_env_keys()),
        is_proxy_bypass(c.env@.subrange(8, 18)),
{
    let args = texts(vec!["-c", GIT_UPDATE_SCRIPT]);
    assert(strs(seq!["-c", GIT_UPDATE_SCRIPT]) =~= seq!["-c"@, GIT_UPDATE_SCRIPT@]);
    let mut env: Vec<EnvEdit<P>> = Vec::new();
    env.push(EnvEdit::Assign(String::from_str("AZURPILOT_BOOTSTRAP_UV"), CommandArg::Path(bootstrap_uv)));
    let b = isolate_python_child_environment();
    let ghost bv = b@;
    append(&mut env, b);
    let d = bypass_proxy_for_child();
    let ghost dv = d@;
    append(&mut env, d);
    assert(env@.subrange(1, 8) =~= bv);
    assert(env@.subrange(8, 18) =~= dv);
    CommandSpec { program: python, args, env }
}

} // verus!
