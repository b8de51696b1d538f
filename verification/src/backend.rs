//! Launch settings of the web UI backend, the choice of its port, and what
//! the launcher reads from the system's listings of ports in use.
use vstd::prelude::*;
use vstd::std_specs::convert::FromSpecImpl;
use vstd::string::*;
use std::collections::BTreeSet;
use crate::deploy::{
    deploy_config_of, get_deploy_config, opt_str_view, deref_opt, field, get_field, is_not_blank, not_blank, strings_of, value_as_bool,
    value_as_string, value_as_string_list, value_as_u16, value_bool, value_string,
    value_string_list, value_u16, DeployValue,
};
use crate::encoding::{decode_utf8_lossy, utf8_lossy};
use crate::text::{
    chars_eq, chars_of, decimal, decimal_string, eq_ignore_case, eq_ignore_case_str, is_ws, lines_chars,
    lines_of, parse_unsigned, parse_unsigned_chars, push_chars, push_str, seqs_of, slice_chars,
    split_on, split_on_chars, trim, trim_chars,
};

verus! {

/// How long the launcher waits for the backend's port to open.
pub const BACKEND_STARTUP_TIMEOUT_SECS: u64 = 5 * 60;

/// The port used in development, which a production launch avoids.
pub const DEVELOPMENT_PORT: u16 = 25548;

/// First port tried when the system hands out none.
pub const FALLBACK_SCAN_START: u16 = 25550;

/// End (exclusive) of the fallback range.
pub const FALLBACK_SCAN_END: u16 = 25650;

/// The port used when no probe found a free one.
pub const LAST_RESORT_PORT: u16 = 25549;

/// The backend did not open its port in time.
#[derive(Debug, Clone, Copy, PartialEq, Eq, Structural)]
pub struct BackendStartupTimeout {
    pub port: u16,
}

impl BackendStartupTimeout {
    /// The error's message.
    pub fn message(&self) -> (s: String)
        ensures
            s@ == "Timeout waiting for port "@ + decimal(self.port as nat) + " to be ready"@,
    {
        let mut s = String::from_str("Timeout waiting for port ");
        let n = decimal_string(self.port as u64);
        push_str(&mut s, n.as_str());
        push_str(&mut s, " to be ready");
        s
    }
}

/// Why starting the backend failed.
#[derive(Debug)]
pub enum BackendError {
    StartupTimeout(BackendStartupTimeout),
    Failed(String),
}

impl From<BackendStartupTimeout> for BackendError {
    fn from(e: BackendStartupTimeout) -> (r: BackendError) {
        BackendError::StartupTimeout(e)
    }
}

impl FromSpecImpl<BackendStartupTimeout> for BackendError {
    open spec fn obeys_from_spec() -> bool {
        true
    }

    open spec fn from_spec(v: BackendStartupTimeout) -> BackendError {
        BackendError::StartupTimeout(v)
    }
}

/// Whether the backend failed by not opening its port in time, the one
/// failure that rebuilding the environment may cure.
pub fn is_backend_startup_timeout(error: &BackendError) -> (b: bool)
    ensures
        b == (*error is StartupTimeout),
{
    match error {
        BackendError::StartupTimeout(_) => true,
        BackendError::Failed(_) => false,
    }
}

/// A probe of the system that the port choice needs next.
#[derive(Debug, Clone, Copy, PartialEq, Eq, Structural)]
pub enum PortProbe {
    /// Whether the configured port is free.
    Configured(u16),
    /// Which free port the system hands out.
    Ephemeral,
    /// Whether this port of the fallback range is free.
    Scan(u16),
}

/// Either the next probe, or the port chosen.
#[derive(Debug, Clone, Copy, PartialEq, Eq, Structural)]
pub enum PortChoice {
    Probe(PortProbe),
    Chosen(u16),
}

/// A configured port that a production launch may use when it is free:
/// neither zero nor the development port.
pub open spec fn is_custom_port(p: u16) -> bool {
    p != 0 && p != DEVELOPMENT_PORT
}

/// Where the choice of a production port starts: a configured custom port
/// is tried first; otherwise the system is asked for a free port.
pub open spec fn first_probe(configured_port: Option<u16>) -> PortChoice {
    match configured_port {
        Some(p) => if is_custom_port(p) {
            PortChoice::Probe(PortProbe::Configured(p))
        } else {
            PortChoice::Probe(PortProbe::Ephemeral)
        },
        None => PortChoice::Probe(PortProbe::Ephemeral),
    }
}

/// The first step of the choice of a production port.
pub fn first_port_probe(configured_port: Option<u16>) -> (c: PortChoice)
    ensures
        c == first_probe(configured_port),
{
    match configured_port {
        Some(p) => if p != 0 && p != DEVELOPMENT_PORT {
            PortChoice::Probe(PortProbe::Configured(p))
        } else {
            PortChoice::Probe(PortProbe::Ephemeral)
        },
        None => PortChoice::Probe(PortProbe::Ephemeral),
    }
}

/// After probing the configured port: use it when free, else ask the system.
pub fn after_configured_probe(port: u16, available: bool) -> (c: PortChoice)
    ensures
        c == (if available {
            PortChoice::Chosen(port)
        } else {
            PortChoice::Probe(PortProbe::Ephemeral)
        }),
{
    if available {
        PortChoice::Chosen(port)
    } else {
        PortChoice::Probe(PortProbe::Ephemeral)
    }
}

/// After asking the system for a free port: use the one it handed out
/// unless it is port 0 or the development port; otherwise, or when it
/// handed out none, scan the fallback range from its start.
pub open spec fn after_ephemeral(bound: Option<u16>) -> PortChoice {
    match bound {
        Some(p) => if is_custom_port(p) {
            PortChoice::Chosen(p)
        } else {
            PortChoice::Probe(PortProbe::Scan(FALLBACK_SCAN_START))
        },
        None => PortChoice::Probe(PortProbe::Scan(FALLBACK_SCAN_START)),
    }
}

/// The step after asking the system for a free port.
pub fn after_ephemeral_probe(bound: Option<u16>) -> (c: PortChoice)
    ensures
        c == after_ephemeral(bound),
{
    match bound {
        Some(p) => if p != 0 && p != DEVELOPMENT_PORT {
            PortChoice::Chosen(p)
        } else {
            PortChoice::Probe(PortProbe::Scan(FALLBACK_SCAN_START))
        },
        None => PortChoice::Probe(PortProbe::Scan(FALLBACK_SCAN_START)),
    }
}

/// After probing a port of the fallback range: use it when free, else try
/// the next one; past the range's end, use the last-resort port.
pub open spec fn after_scan(port: u16, available: bool) -> PortChoice {
    if available {
        PortChoice::Chosen(port)
    } else if port + 1 < FALLBACK_SCAN_END {
        PortChoice::Probe(PortProbe::Scan((port + 1) as u16))
    } else {
        PortChoice::Chosen(LAST_RESORT_PORT)
    }
}

/// The step after probing a port of the fallback range.
pub fn after_scan_probe(port: u16, available: bool) -> (c: PortChoice)
    requires
        FALLBACK_SCAN_START <= port < FALLBACK_SCAN_END,
    ensures
        c == after_scan(port, available),
{
    if available {
        PortChoice::Chosen(port)
    } else if port + 1 < FALLBACK_SCAN_END {
        PortChoice::Probe(PortProbe::Scan(port + 1))
    } else {
        PortChoice::Chosen(LAST_RESORT_PORT)
    }
}

/// A production launch never picks the development port, nor port 0: a
/// configured port is probed only when it is neither, a port the system
/// hands out is used only when it is neither, and the fallback scan stays
/// within its range or ends on the last-resort port.
pub proof fn lemma_port_choice_avoids_development_port(
    configured_port: Option<u16>,
    bound: Option<u16>,
    port: u16,
    available: bool,
)
    ensures
        first_probe(configured_port) matches PortChoice::Probe(PortProbe::Configured(q)) ==> q != DEVELOPMENT_PORT && q != 0,
        after_ephemeral(bound) matches PortChoice::Chosen(q) ==> q != DEVELOPMENT_PORT && q != 0,
        after_ephemeral(bound) matches PortChoice::Probe(PortProbe::Scan(q)) ==> q == FALLBACK_SCAN_START,
        after_ephemeral(bound) is Chosen || after_ephemeral(bound) matches PortChoice::Probe(PortProbe::Scan(_)),
        FALLBACK_SCAN_START <= port < FALLBACK_SCAN_END ==> match after_scan(port, available) {
            PortChoice::Chosen(q) => q != DEVELOPMENT_PORT && q != 0,
            PortChoice::Probe(PortProbe::Scan(q)) => FALLBACK_SCAN_START <= q < FALLBACK_SCAN_END,
            _ => false,
        },
{
}

/// Settings with which the web UI backend is started.
#[derive(Clone, Debug)]
pub struct WebuiLaunchConfig {
    pub host: String,
    pub port: u16,
    pub password: Option<String>,
    pub cdn: bool,
    pub ssl_key: Option<String>,
    pub ssl_cert: Option<String>,
    pub run: Vec<String>,
}

pub open spec fn opt_text(o: Option<String>) -> Option<Seq<char>> {
    match o {
        Some(s) => Some(s@),
        None => None,
    }
}

/// The `Deploy.Webui` section of a configuration.
pub open spec fn webui_section(config: Option<DeployValue>) -> Option<DeployValue> {
    field(field(config, "Deploy"@), "Webui"@)
}

/// A setting of the web UI section read as non-blank text.
pub open spec fn webui_text(config: Option<DeployValue>, key: Seq<char>) -> Option<Seq<char>> {
    match field(webui_section(config), key) {
        Some(v) => match value_string(v) {
            Some(s) => if not_blank(s) {
                Some(s)
            } else {
                None
            },
            None => None,
        },
        None => None,
    }
}

/// The port the configuration asks for, `Deploy.Webui.WebuiPort`.
pub open spec fn webui_port_of(config: Option<DeployValue>) -> Option<u16> {
    match field(webui_section(config), "WebuiPort"@) {
        Some(v) => value_u16(v),
        None => None,
    }
}

/// The launch settings a configuration gives, on port `port`.
pub open spec fn launch_config_matches(c: WebuiLaunchConfig, config: Option<DeployValue>, port: u16) -> bool {
    &&& c.host@ == (match webui_text(config, "WebuiHost"@) {
        Some(h) => h,
        None => "127.0.0.1"@,
    })
    &&& c.port == port
    &&& opt_text(c.password) == webui_text(config, "Password"@)
    &&& c.cdn == (match field(webui_section(config), "CDN"@) {
        Some(v) => match value_bool(v) {
            Some(b) => b,
            None => false,
        },
        None => false,
    })
    &&& opt_text(c.ssl_key) == webui_text(config, "WebuiSSLKey"@)
    &&& opt_text(c.ssl_cert) == webui_text(config, "WebuiSSLCert"@)
    &&& strings_of(c.run@) == (match field(webui_section(config), "Run"@) {
        Some(v) => value_string_list(v),
        None => Seq::empty(),
    })
}

/// The command-line arguments of `gui.py` for a launch configuration.
pub open spec fn launch_args(c: WebuiLaunchConfig) -> Seq<Seq<char>> {
    seq!["gui.py"@, "--host"@, c.host@, "--port"@, decimal(c.port as nat)] + (match c.password {
        Some(p) => seq!["--key"@, p@],
        None => Seq::empty(),
    }) + (if c.cdn {
        seq!["--cdn"@]
    } else {
        Seq::empty()
    }) + (match c.ssl_key {
        Some(k) => seq!["--ssl-key"@, k@],
        None => Seq::empty(),
    }) + (match c.ssl_cert {
        Some(k) => seq!["--ssl-cert"@, k@],
        None => Seq::empty(),
    }) + (if c.run.len() > 0 {
        seq!["--run"@] + strings_of(c.run@)
    } else {
        Seq::empty()
    })
}

/// A web UI setting read as non-blank text.
fn webui_setting_text(webui: Option<&DeployValue>, key: &str) -> (r: Option<String>)
    ensures
        opt_text(r) == (match field(deref_opt(webui), key@) {
            Some(v) => match value_string(v) {
                Some(s) => if not_blank(s) {
                    Some(s)
                } else {
                    None
                },
                None => None,
            },
            None => None,
        }),
{
    match get_field(webui, key) {
        Some(v) => match value_as_string(v) {
            Some(s) => if is_not_blank(&s) {
                Some(s)
            } else {
                None
            },
            None => None,
        },
        None => None,
    }
}

/// An option `flag` followed at once by `value` in an argument list.
pub open spec fn has_option(args: Seq<Seq<char>>, flag: Seq<char>, value: Seq<char>) -> bool {
    exists|i: int| 0 <= i && i + 1 < args.len() && args[i] == flag && #[trigger] args[i + 1] == value
}

/// One of the texts a launch configuration supplies (not an option name).
pub open spec fn supplied_value(c: WebuiLaunchConfig, x: Seq<char>) -> bool {
    ||| x == c.host@
    ||| x == decimal(c.port as nat)
    ||| (c.password matches Some(p) && x == p@)
    ||| (c.ssl_key matches Some(k) && x == k@)
    ||| (c.ssl_cert matches Some(k) && x == k@)
    ||| strings_of(c.run@).contains(x)
}

proof fn lemma_launch_args_elements(c: WebuiLaunchConfig)
    ensures
        forall|i: int| 0 <= i < launch_args(c).len() ==> {
            let x = #[trigger] launch_args(c)[i];
            ||| x == "gui.py"@
            ||| x == "--host"@
            ||| x == "--port"@
            ||| (c.password is Some && x == "--key"@)
            ||| (c.cdn && x == "--cdn"@)
            ||| (c.ssl_key is Some && x == "--ssl-key"@)
            ||| (c.ssl_cert is Some && x == "--ssl-cert"@)
            ||| (c.run.len() > 0 && x == "--run"@)
            ||| supplied_value(c, x)
        },
{
    let a0 = seq!["gui.py"@, "--host"@, c.host@, "--port"@, decimal(c.port as nat)];
    let k = match c.password {
        Some(p) => seq!["--key"@, p@],
        None => Seq::<Seq<char>>::empty(),
    };
    let cd = if c.cdn { seq!["--cdn"@] } else { Seq::<Seq<char>>::empty() };
    let sk = match c.ssl_key {
        Some(x) => seq!["--ssl-key"@, x@],
        None => Seq::<Seq<char>>::empty(),
    };
    let sc = match c.ssl_cert {
        Some(x) => seq!["--ssl-cert"@, x@],
        None => Seq::<Seq<char>>::empty(),
    };
    let rn = if c.run.len() > 0 { seq!["--run"@] + strings_of(c.run@) } else { Seq::<Seq<char>>::empty() };
    let a = launch_args(c);
    assert(a == a0 + k + cd + sk + sc + rn);
    assert forall|i: int| 0 <= i < a.len() implies {
        let x = #[trigger] a[i];
        ||| x == "gui.py"@
        ||| x == "--host"@
        ||| x == "--port"@
        ||| (c.password is Some && x == "--key"@)
        ||| (c.cdn && x == "--cdn"@)
        ||| (c.ssl_key is Some && x == "--ssl-key"@)
        ||| (c.ssl_cert is Some && x == "--ssl-cert"@)
        ||| (c.run.len() > 0 && x == "--run"@)
        ||| supplied_value(c, x)
    } by {
        let n0 = a0.len() as int;
        let n1 = n0 + k.len();
        let n2 = n1 + cd.len();
        let n3 = n2 + sk.len();
        let n4 = n3 + sc.len();
        if i < n0 {
            assert(a[i] == a0[i]);
        } else if i < n1 {
            assert(a[i] == k[i - n0]);
        } else if i < n2 {
            assert(a[i] == cd[i - n1]);
        } else if i < n3 {
            assert(a[i] == sk[i - n2]);
        } else if i < n4 {
            assert(a[i] == sc[i - n3]);
        } else {
            assert(a[i] == rn[i - n4]);
            if i - n4 > 0 {
                assert(rn[i - n4] == strings_of(c.run@)[i - n4 - 1]);
            }
        }
    }
}

proof fn lemma_decimal_last_is_digit(n: nat)
    ensures
        decimal(n).len() > 0,
        '0' <= decimal(n).last() <= '9',
    decreases n,
{
    if n >= 10 {
        lemma_decimal_last_is_digit(n / 10);
    }
}

/// The command line of `gui.py` says what the launch configuration holds:
/// it starts `gui.py --host <host> --port <port>`; a password is passed
/// right after that as `--key <password>`; `--cdn` is there when the CDN
/// is on; each TLS file follows its option; a non-empty run list ends the
/// line, after `--run`, in order. An option whose setting is absent is not
/// passed (unless one of the supplied texts is that option's very name).
#[verifier::spinoff_prover]
pub proof fn lemma_launch_args_options(c: WebuiLaunchConfig)
    ensures
        ({
            let a = launch_args(c);
            &&& a.len() >= 5
            &&& a[0] == "gui.py"@ && a[1] == "--host"@ && a[2] == c.host@ && a[3] == "--port"@
            &&& a[4] == decimal(c.port as nat)
            &&& c.password matches Some(p) ==> a[5] == "--key"@ && a[6] == p@
            &&& c.cdn ==> a.contains("--cdn"@)
            &&& c.ssl_key matches Some(k) ==> has_option(a, "--ssl-key"@, k@)
            &&& c.ssl_cert matches Some(k) ==> has_option(a, "--ssl-cert"@, k@)
            &&& c.run.len() > 0 ==> a.len() > c.run.len() && a[a.len() - c.run.len() - 1] == "--run"@
                && a.skip(a.len() - c.run.len()) == strings_of(c.run@)
            &&& c.password is None && !supplied_value(c, "--key"@) ==> !a.contains("--key"@)
            &&& !c.cdn && !supplied_value(c, "--cdn"@) ==> !a.contains("--cdn"@)
            &&& c.ssl_key is None && !supplied_value(c, "--ssl-key"@) ==> !a.contains("--ssl-key"@)
            &&& c.ssl_cert is None && !supplied_value(c, "--ssl-cert"@) ==> !a.contains("--ssl-cert"@)
            &&& c.run.len() == 0 && !supplied_value(c, "--run"@) ==> !a.contains("--run"@)
        }),
{
    let a0 = seq!["gui.py"@, "--host"@, c.host@, "--port"@, decimal(c.port as nat)];
    let k = match c.password {
        Some(p) => seq!["--key"@, p@],
        None => Seq::<Seq<char>>::empty(),
    };
    let cd = if c.cdn { seq!["--cdn"@] } else { Seq::<Seq<char>>::empty() };
    let sk = match c.ssl_key {
        Some(x) => seq!["--ssl-key"@, x@],
        None => Seq::<Seq<char>>::empty(),
    };
    let sc = match c.ssl_cert {
        Some(x) => seq!["--ssl-cert"@, x@],
        None => Seq::<Seq<char>>::empty(),
    };
    let rn = if c.run.len() > 0 { seq!["--run"@] + strings_of(c.run@) } else { Seq::<Seq<char>>::empty() };
    let a = launch_args(c);
    assert(a == a0 + k + cd + sk + sc + rn);
    let n1: int = 5 + k.len() as int;
    let n2: int = n1 + cd.len();
    let n3: int = n2 + sk.len();
    let n4: int = n3 + sc.len();
    assert(a[0] == a0[0] && a[1] == a0[1] && a[2] == a0[2] && a[3] == a0[3] && a[4] == a0[4]);
    if c.password is Some {
        assert(a[5] == k[0] && a[6] == k[1]);
    }
    if c.cdn {
        assert(a[n1] == cd[0]);
    }
    if c.ssl_key is Some {
        assert(a[n2] == sk[0] && a[n2 + 1] == sk[1]);
    }
    if c.ssl_cert is Some {
        assert(a[n3] == sc[0] && a[n3 + 1] == sc[1]);
    }
    if c.run.len() > 0 {
        assert(a.len() == n4 + 1 + c.run.len());
        assert(a[n4] == rn[0]);
        assert(a.skip(a.len() - c.run.len()) =~= strings_of(c.run@));
    }
    lemma_launch_args_elements(c);
    lemma_decimal_last_is_digit(c.port as nat);
    reveal_strlit("gui.py");
    reveal_strlit("--host");
    reveal_strlit("--port");
    reveal_strlit("--key");
    reveal_strlit("--cdn");
    reveal_strlit("--ssl-key");
    reveal_strlit("--ssl-cert");
    reveal_strlit("--run");
    let d = decimal(c.port as nat);
    let flags = seq!["--key"@, "--cdn"@, "--ssl-key"@, "--ssl-cert"@, "--run"@];
    assert forall|f: int| 0 <= f < 5 implies d != #[trigger] flags[f] && flags[f] != "gui.py"@ && flags[f] != "--host"@
        && flags[f] != "--port"@ by {
        assert(flags[f].len() == 5 || flags[f].len() == 9 || flags[f].len() == 10);
        assert(flags[f][0] == '-');
        assert("gui.py"@[0] == 'g');
        assert("--host"@.len() == 6 && "--port"@.len() == 6);
        assert('a' <= flags[f].last() <= 'z');
        if d == flags[f] {
            assert(d.last() == flags[f].last());
        }
    }
    assert forall|f: int, g: int| 0 <= f < 5 && 0 <= g < 5 && f != g implies #[trigger] flags[f] != #[trigger] flags[g] by {
        if flags[f] == flags[g] {
            assert(flags[f].len() == flags[g].len());
            assert(flags[f][2] == flags[g][2]);
            assert(flags[f][3] == flags[g][3]);
        }
    }
    assert(flags[0] == "--key"@ && flags[1] == "--cdn"@ && flags[2] == "--ssl-key"@);
    assert(flags[3] == "--ssl-cert"@ && flags[4] == "--run"@);
    assert(c.password is None && !supplied_value(c, "--key"@) ==> !a.contains("--key"@));
    assert(!c.cdn && !supplied_value(c, "--cdn"@) ==> !a.contains("--cdn"@));
    assert(c.ssl_key is None && !supplied_value(c, "--ssl-key"@) ==> !a.contains("--ssl-key"@));
    assert(c.ssl_cert is None && !supplied_value(c, "--ssl-cert"@) ==> !a.contains("--ssl-cert"@));
    assert(c.run.len() == 0 && !supplied_value(c, "--run"@) ==> !a.contains("--run"@));
    assert(c.cdn ==> a.contains("--cdn"@));
    assert(c.ssl_key matches Some(k) ==> has_option(a, "--ssl-key"@, k@));
    assert(c.ssl_cert matches Some(k) ==> has_option(a, "--ssl-cert"@, k@));
}

/// What a launch configuration read from the deploy configuration holds:
/// the port chosen for the launch; a host that is never blank, the
/// configured one when it is set, else `127.0.0.1`; a password and TLS
/// files only when they are set to non-blank text, exactly as written; a
/// run list with no blank entry; the CDN off unless switched on.
pub proof fn lemma_launch_config_settings(c: WebuiLaunchConfig, config: Option<DeployValue>, port: u16)
    requires
        launch_config_matches(c, config, port),
    ensures
        c.port == port,
        trim(c.host@).len() > 0,
        webui_text(config, "WebuiHost"@) is None ==> c.host@ == "127.0.0.1"@,
        webui_text(config, "WebuiHost"@) is Some ==> c.host@ == webui_text(config, "WebuiHost"@)->0,
        c.password is Some ==> trim(c.password->0@).len() > 0,
        forall|p: String|
            field(webui_section(config), "Password"@) == Some(DeployValue::Text(p)) && trim(#[trigger] p@).len() > 0
                ==> opt_text(c.password) == Some(p@),
        field(webui_section(config), "Password"@) is None ==> c.password is None,
        c.ssl_key is Some ==> trim(c.ssl_key->0@).len() > 0,
        c.ssl_cert is Some ==> trim(c.ssl_cert->0@).len() > 0,
        forall|i: int| 0 <= i < c.run@.len() ==> trim((#[trigger] c.run@[i])@).len() > 0,
        field(webui_section(config), "CDN"@) is None ==> !c.cdn,
{
    reveal_strlit("127.0.0.1");
    if webui_text(config, "WebuiHost"@) is None {
        crate::config_text::lemma_not_blank("127.0.0.1"@, 0);
    }
    match field(webui_section(config), "Run"@) {
        Some(v) => {
            crate::deploy::lemma_string_list_setting(v);
            assert forall|i: int| 0 <= i < c.run@.len() implies trim((#[trigger] c.run@[i])@).len() > 0 by {
                assert(strings_of(c.run@)[i] == c.run@[i]@);
            }
        },
        None => {
            assert(strings_of(c.run@).len() == 0);
        },
    }
}

impl WebuiLaunchConfig {
    /// The port the configuration asks for.
    pub fn configured_port(config: Option<&DeployValue>) -> (r: Option<u16>)
        ensures
            r == webui_port_of(deref_opt(config)),
    {
        let webui = get_field(get_field(config, "Deploy"), "Webui");
        match get_field(webui, "WebuiPort") {
            Some(v) => value_as_u16(v),
            None => None,
        }
    }

    /// The launch settings from the deploy configuration's web UI section;
    /// `port` is the port chosen for this launch.
    pub fn from_deploy_config(config: Option<&DeployValue>, port: u16) -> (c: WebuiLaunchConfig)
        ensures
            launch_config_matches(c, deref_opt(config), port),
    {
        let webui = get_field(get_field(config, "Deploy"), "Webui");
        assert(deref_opt(webui) == webui_section(deref_opt(config)));
        let host = match webui_setting_text(webui, "WebuiHost") {
            Some(h) => h,
            None => String::from_str("127.0.0.1"),
        };
        let password = webui_setting_text(webui, "Password");
        let cdn = match get_field(webui, "CDN") {
            Some(v) => match value_as_bool(v) {
                Some(b) => b,
                None => false,
            },
            None => false,
        };
        let ssl_key = webui_setting_text(webui, "WebuiSSLKey");
        let ssl_cert = webui_setting_text(webui, "WebuiSSLCert");
        let run = match get_field(webui, "Run") {
            Some(v) => value_as_string_list(v),
            None => Vec::new(),
        };
        assert(strings_of(Seq::<String>::empty()) =~= Seq::<Seq<char>>::empty());
        WebuiLaunchConfig { host, port, password, cdn, ssl_key, ssl_cert, run }
    }

    /// The port that the text of `config/deploy.yaml` asks for (`None`
    /// when the file could not be read).
    pub fn configured_port_of_text(content: Option<&str>) -> (r: Option<u16>)
        ensures
            r == webui_port_of(deploy_config_of(opt_str_view(content))),
    {
        let config = get_deploy_config(content);
        Self::configured_port(config.as_ref())
    }

    /// The launch settings from the text of `config/deploy.yaml` (`None`
    /// when the file could not be read); `port` is the port chosen for
    /// this launch.
    pub fn from_deploy_text(content: Option<&str>, port: u16) -> (c: WebuiLaunchConfig)
        ensures
            launch_config_matches(c, deploy_config_of(opt_str_view(content)), port),
    {
        let config = get_deploy_config(content);
        Self::from_deploy_config(config.as_ref(), port)
    }

    /// The command-line arguments of `gui.py`.
    pub fn args(&self) -> (args: Vec<String>)
        ensures
            strings_of(args@) == launch_args(*self),
    {
        let mut args: Vec<String> = Vec::new();
        args.push(String::from_str("gui.py"));
        args.push(String::from_str("--host"));
        args.push(self.host.clone());
        args.push(String::from_str("--port"));
        args.push(decimal_string(self.port as u64));
        let ghost a0 = strings_of(args@);
        assert(a0 =~= seq!["gui.py"@, "--host"@, self.host@, "--port"@, decimal(self.port as nat)]);
        match &self.password {
            Some(p) => {
                args.push(String::from_str("--key"));
                args.push(p.clone());
            },
            None => {},
        }
        let ghost a1 = strings_of(args@);
        assert(a1 =~= a0 + (match self.password {
            Some(p) => seq!["--key"@, p@],
            None => Seq::<Seq<char>>::empty(),
        }));
        if self.cdn {
            args.push(String::from_str("--cdn"));
        }
        let ghost a2 = strings_of(args@);
        assert(a2 =~= a1 + (if self.cdn {
            seq!["--cdn"@]
        } else {
            Seq::<Seq<char>>::empty()
        }));
        match &self.ssl_key {
            Some(k) => {
                args.push(String::from_str("--ssl-key"));
                args.push(k.clone());
            },
            None => {},
        }
        let ghost a3 = strings_of(args@);
        assert(a3 =~= a2 + (match self.ssl_key {
            Some(k) => seq!["--ssl-key"@, k@],
            None => Seq::<Seq<char>>::empty(),
        }));
        match &self.ssl_cert {
            Some(k) => {
                args.push(String::from_str("--ssl-cert"));
                args.push(k.clone());
            },
            None => {},
        }
        let ghost a4 = strings_of(args@);
        assert(a4 =~= a3 + (match self.ssl_cert {
            Some(k) => seq!["--ssl-cert"@, k@],
            None => Seq::<Seq<char>>::empty(),
        }));
        if self.run.len() > 0 {
            args.push(String::from_str("--run"));
            let mut i: usize = 0;
            while i < self.run.len()
                invariant
                    i <= self.run.len(),
                    strings_of(args@) == a4 + seq!["--run"@] + strings_of(self.run@.take(i as int)),
                decreases self.run.len() - i,
            {
                let ghost before = strings_of(args@);
                args.push(self.run[i].clone());
                assert(strings_of(args@) =~= before.push(self.run@[i as int]@));
                assert(self.run@.take(i + 1) =~= self.run@.take(i as int).push(self.run@[i as int]));
                assert(strings_of(self.run@.take(i + 1)) =~= strings_of(self.run@.take(i as int)).push(self.run@[i as int]@));
                i = i + 1;
                assert(strings_of(args@) =~= a4 + seq!["--run"@] + strings_of(
                    self.run@.take(i as int),
                ));
            }
            assert(self.run@.take(self.run.len() as int) =~= self.run@);
        }
        assert(strings_of(args@) =~= launch_args(*self));
        args
    }
}

/// The port an address such as `0.0.0.0:8080` or `[::]:8080` names: the
/// number after its last colon.
pub open spec fn address_port(address: Seq<char>) -> Option<u16> {
    let parts = split_on(address, ':');
    if parts.len() < 2 {
        None
    } else {
        match parse_unsigned(parts.last(), 65535) {
            Some(n) => Some(n as u16),
            None => None,
        }
    }
}

/// Whether a local address is on port `port`.
pub fn local_address_uses_port(address: &Vec<char>, port: u16) -> (b: bool)
    ensures
        b == (address_port(address@) == Some(port)),
{
    let parts = split_on_chars(address, ':');
    if parts.len() < 2 {
        return false;
    }
    let last = &parts[parts.len() - 1];
    assert(last@ == split_on(address@, ':').last());
    match parse_unsigned_chars(last, 65535) {
        Some(n) => n as u16 == port,
        None => false,
    }
}

/// The white-space separated words of a line (`str::split_whitespace`).
pub open spec fn words_of(s: Seq<char>) -> Seq<Seq<char>>
    decreases s.len(),
{
    if s.len() == 0 {
        Seq::empty()
    } else if is_ws(s.last()) {
        words_of(s.drop_last())
    } else {
        let prev = words_of(s.drop_last());
        if s.len() >= 2 && !is_ws(s[s.len() - 2]) && prev.len() > 0 {
            prev.update(prev.len() - 1, prev.last().push(s.last()))
        } else {
            prev.push(seq![s.last()])
        }
    }
}

/// `str::split_whitespace`.
pub fn words_chars(v: &Vec<char>) -> (words: Vec<Vec<char>>)
    ensures
        seqs_of(words@) == words_of(v@),
{
    let mut words: Vec<Vec<char>> = Vec::new();
    let mut cur: Vec<char> = Vec::new();
    let mut i: usize = 0;
    while i < v.len()
        invariant
            i <= v.len(),
            cur@.len() == 0 ==> seqs_of(words@) == words_of(v@.take(i as int)),
            cur@.len() > 0 ==> seqs_of(words@).push(cur@) == words_of(v@.take(i as int)),
            cur@.len() > 0 ==> i >= 1 && !is_ws(v@[i - 1]),
            cur@.len() == 0 && i >= 1 ==> is_ws(v@[i - 1]),
        decreases v.len() - i,
    {
        let c = v[i];
        let ghost pre = v@.take(i as int);
        let ghost post = v@.take(i + 1);
        assert(post.drop_last() =~= pre);
        assert(post.last() == c);
        if crate::text::is_ws_char(c) {
            if cur.len() > 0 {
                let w = cur;
                words.push(w);
                cur = Vec::new();
            }
            assert(seqs_of(words@) =~= words_of(post));
        } else {
            let ghost before_words = seqs_of(words@);
            let ghost before_cur = cur@;
            cur.push(c);
            if cur.len() > 1 {
                assert(post[post.len() - 2] == v@[i - 1]);
                assert(seqs_of(words@).push(cur@) =~= before_words.push(before_cur).update(
                    before_words.len() as int,
                    before_cur.push(c),
                ));
            } else {
                assert(cur@ =~= seq![c]);
                if i >= 1 {
                    assert(post[post.len() - 2] == v@[i - 1]);
                }
                assert(seqs_of(words@).push(cur@) =~= words_of(post));
            }
        }
        i = i + 1;
    }
    assert(v@.take(v.len() as int) =~= v@);
    if cur.len() > 0 {
        words.push(cur);
    }
    words
}

/// A netstat row: protocol, local address, foreign address, state, process id.
pub open spec fn netstat_row_pid(words: Seq<Seq<char>>, port: u16) -> Option<u32> {
    if words.len() < 5 || !eq_ignore_case(words[0], "TCP"@) || !eq_ignore_case(
        words[3],
        "LISTENING"@,
    ) || address_port(words[1]) != Some(port) {
        None
    } else {
        match parse_unsigned(words.last(), 0xffff_ffff) {
            Some(n) => Some(n as u32),
            None => None,
        }
    }
}

/// The process ids of the listening TCP rows of a `netstat -ano` listing
/// whose local address is on `port`.
pub open spec fn netstat_pids(lines: Seq<Seq<char>>, port: u16) -> Set<u32>
    decreases lines.len(),
{
    if lines.len() == 0 {
        Set::empty()
    } else {
        let rest = netstat_pids(lines.drop_last(), port);
        match netstat_row_pid(words_of(lines.last()), port) {
            Some(pid) => rest.insert(pid),
            None => rest,
        }
    }
}

/// The process ids in a listing of one id per line (`lsof -t`): each line,
/// without surrounding white space, that reads as a `u32`.
pub open spec fn listed_pids(lines: Seq<Seq<char>>) -> Set<u32>
    decreases lines.len(),
{
    if lines.len() == 0 {
        Set::empty()
    } else {
        let rest = listed_pids(lines.drop_last());
        match parse_unsigned(trim(lines.last()), 0xffff_ffff) {
            Some(n) => rest.insert(n as u32),
            None => rest,
        }
    }
}

/// The processes that a `netstat -ano -p tcp` listing, as text, shows
/// listening on `port`.
pub fn netstat_listing_pids(text: &str, port: u16) -> (pids: BTreeSet<u32>)
    ensures
        pids@ == netstat_pids(lines_of(text@), port),
{
    broadcast use vstd::std_specs::btree::group_btree_axioms;
    let cs = chars_of(text);
    let ls = lines_chars(&cs);
    let ghost lv = lines_of(text@);
    let mut pids: BTreeSet<u32> = BTreeSet::new();
    let mut i: usize = 0;
    while i < ls.len()
        invariant
            i <= ls.len(),
            seqs_of(ls@) == lv,
            pids@ == netstat_pids(lv.take(i as int), port),
        decreases ls.len() - i,
    {
        assert(lv.take(i + 1).drop_last() =~= lv.take(i as int));
        assert(lv.take(i + 1).last() == ls@[i as int]@);
        let words = words_chars(&ls[i]);
        let ghost wv = seqs_of(words@);
        if words.len() >= 5 && eq_ignore_case_str(&words[0], "TCP") && eq_ignore_case_str(
            &words[3],
            "LISTENING",
        ) && local_address_uses_port(&words[1], port) {
            assert(words@[words.len() - 1]@ == wv.last());
            match parse_unsigned_chars(&words[words.len() - 1], 0xffff_ffff) {
                Some(n) => {
                    pids.insert(n as u32);
                },
                None => {},
            }
        }
        i = i + 1;
    }
    assert(lv.take(ls.len() as int) =~= lv);
    pids
}

/// The processes that an `lsof -t` listing, as text, names.
pub fn lsof_listing_pids(text: &str) -> (pids: BTreeSet<u32>)
    ensures
        pids@ == listed_pids(lines_of(text@)),
{
    broadcast use vstd::std_specs::btree::group_btree_axioms;
    let cs = chars_of(text);
    let ls = lines_chars(&cs);
    let ghost lv = lines_of(text@);
    let mut pids: BTreeSet<u32> = BTreeSet::new();
    let mut i: usize = 0;
    while i < ls.len()
        invariant
            i <= ls.len(),
            seqs_of(ls@) == lv,
            pids@ == listed_pids(lv.take(i as int)),
        decreases ls.len() - i,
    {
        assert(lv.take(i + 1).drop_last() =~= lv.take(i as int));
        assert(lv.take(i + 1).last() == ls@[i as int]@);
        let t = trim_chars(&ls[i]);
        match parse_unsigned_chars(&t, 0xffff_ffff) {
            Some(n) => {
                pids.insert(n as u32);
            },
            None => {},
        }
        i = i + 1;
    }
    assert(lv.take(ls.len() as int) =~= lv);
    pids
}

/// The processes that the output of `netstat -ano -p tcp` shows listening
/// on `port`; invalid UTF-8 in it is replaced.
pub fn parse_windows_netstat_pids(output: &[u8], port: u16) -> (pids: BTreeSet<u32>)
    ensures
        pids@ == netstat_pids(lines_of(utf8_lossy(output@)), port),
{
    let text = decode_utf8_lossy(output);
    netstat_listing_pids(text.as_str(), port)
}

/// The processes that the output of `lsof -t` names; invalid UTF-8 in it is
/// replaced.
pub fn parse_lsof_pids(output: &[u8]) -> (pids: BTreeSet<u32>)
    ensures
        pids@ == listed_pids(lines_of(utf8_lossy(output@))),
{
    let text = decode_utf8_lossy(output);
    lsof_listing_pids(text.as_str())
}

/// Lines joined by `\n`.
pub open spec fn joined(ls: Seq<Seq<char>>) -> Seq<char>
    decreases ls.len(),
{
    if ls.len() == 0 {
        Seq::empty()
    } else if ls.len() == 1 {
        ls[0]
    } else {
        joined(ls.drop_last()) + seq!['\n'] + ls.last()
    }
}

/// The last `n` items of a sequence (all of them when there are fewer).
pub open spec fn last_n<A>(s: Seq<A>, n: nat) -> Seq<A> {
    if s.len() <= n {
        s
    } else {
        s.skip(s.len() - n)
    }
}

/// What a backend that exited early wrote to its error stream, cut to its
/// last six lines; nothing when it wrote only white space.
pub open spec fn startup_error_summary(stderr: Seq<char>) -> Option<Seq<char>> {
    let t = trim(stderr);
    if t.len() == 0 {
        None
    } else {
        Some(joined(last_n(lines_of(t), 6)))
    }
}

/// The last lines of a failed backend's error output, for the error message.
pub fn startup_stderr_summary(stderr: &str) -> (r: Option<String>)
    ensures
        opt_text(r) == startup_error_summary(stderr@),
{
    let cs = chars_of(stderr);
    let t = trim_chars(&cs);
    if t.len() == 0 {
        return None;
    }
    let ls = lines_chars(&t);
    let ghost lv = lines_of(t@);
    let start: usize = if ls.len() <= 6 {
        0
    } else {
        ls.len() - 6
    };
    let ghost kept = last_n(lv, 6);
    assert(kept =~= lv.skip(start as int));
    let mut out = String::new();
    let mut i = start;
    while i < ls.len()
        invariant
            start <= i <= ls.len(),
            seqs_of(ls@) == lv,
            kept == lv.skip(start as int),
            out@ == joined(kept.take(i - start)),
        decreases ls.len() - i,
    {
        let ghost before = out@;
        if i > start {
            push_str(&mut out, "\n");
        }
        push_chars(&mut out, &ls[i]);
        proof {
            reveal_strlit("\n");
            let k = kept.take(i + 1 - start);
            assert(k.drop_last() =~= kept.take(i - start));
            assert(k.last() == lv[i as int]);
            if i > start {
                assert(out@ =~= joined(k));
            } else {
                assert(k.len() == 1);
                assert(out@ =~= joined(k));
            }
        }
        i = i + 1;
    }
    assert(kept.take(ls.len() - start) =~= kept);
    Some(out)
}

/// The message of a backend that exited, with `status` as the exit status
/// reads, before its port opened: the last lines of what it wrote to its
/// error stream follow on a line of their own, when it wrote any.
pub open spec fn exit_message(port: u16, status: Seq<char>, stderr: Seq<char>) -> Seq<char> {
    let head = "Backend exited before port "@ + decimal(port as nat) + " was ready: "@ + status;
    match startup_error_summary(stderr) {
        Some(summary) => head + "\n"@ + summary,
        None => head,
    }
}

/// Says that the backend exited before its port opened.
pub fn backend_exit_message(port: u16, status: &str, stderr: &str) -> (s: String)
    ensures
        s@ == exit_message(port, status@, stderr@),
{
    let mut s = String::from_str("Backend exited before port ");
    let n = decimal_string(port as u64);
    push_str(&mut s, n.as_str());
    push_str(&mut s, " was ready: ");
    push_str(&mut s, status);
    match startup_stderr_summary(stderr) {
        Some(summary) => {
            push_str(&mut s, "\n");
            push_str(&mut s, summary.as_str());
        },
        None => {},
    }
    s
}

/// Says that a backend that did not start in time could not be stopped.
pub fn stop_failure_message(port: u16, error: &str) -> (s: String)
    ensures
        s@ == "Failed to stop timed out backend on port "@ + decimal(port as nat)
            + " before recovery: "@ + error@,
{
    let mut s = String::from_str("Failed to stop timed out backend on port ");
    let n = decimal_string(port as u64);
    push_str(&mut s, n.as_str());
    push_str(&mut s, " before recovery: ");
    push_str(&mut s, error);
    s
}

/// What was seen of a starting backend at one look.
#[derive(Debug)]
pub enum StartupObservation {
    /// Its port accepts connections.
    PortOpen,
    /// It exited with this status, having written this to its error stream.
    Exited { status: String, stderr: String },
    /// It still runs and its port is still closed.
    Running,
}

/// What the launcher does after a look at the starting backend.
#[derive(Debug)]
pub enum StartupDecision {
    /// The backend is up.
    Ready,
    /// The backend is gone; this is why.
    Failed(String),
    /// Look again shortly.
    KeepWaiting,
    /// Too long: stop the backend and report a startup timeout.
    TimedOut,
}

/// Nanoseconds the launcher waits for the backend's port.
pub open spec fn startup_timeout_nanos() -> nat {
    BACKEND_STARTUP_TIMEOUT_SECS as nat * 1_000_000_000
}

/// Decides after a look at the backend, `elapsed_nanos` after it was
/// started: past the timeout it has timed out, whatever was seen.
pub fn backend_startup_step(port: u16, elapsed_nanos: u64, seen: StartupObservation) -> (r: StartupDecision)
    ensures
        elapsed_nanos >= startup_timeout_nanos() ==> r is TimedOut,
        elapsed_nanos < startup_timeout_nanos() ==> match seen {
            StartupObservation::PortOpen => r is Ready,
            StartupObservation::Exited { status, stderr } => r matches StartupDecision::Failed(m) && m@ == exit_message(port, status@, stderr@),
            StartupObservation::Running => r is KeepWaiting,
        },
{
    if elapsed_nanos >= BACKEND_STARTUP_TIMEOUT_SECS * 1_000_000_000 {
        return StartupDecision::TimedOut;
    }
    match seen {
        StartupObservation::PortOpen => StartupDecision::Ready,
        StartupObservation::Exited { status, stderr } => StartupDecision::Failed(
            backend_exit_message(port, status.as_str(), stderr.as_str()),
        ),
        StartupObservation::Running => StartupDecision::KeepWaiting,
    }
}

/// The processes to stop to free the backend's port: all that hold it but
/// the system idle process (0) and the launcher itself.
pub fn killable_pids(pids: &BTreeSet<u32>, current_pid: u32) -> (r: BTreeSet<u32>)
    ensures
        r@ == pids@.remove(0).remove(current_pid),
{
    broadcast use vstd::std_specs::btree::group_btree_axioms;
    let mut r = pids.clone();
    r.remove(&0);
    r.remove(&current_pid);
    r
}

/// The environment entry the launcher gives the backend it starts, naming
/// the launcher's process.
pub open spec fn launcher_pid_entry(launcher_pid: u32) -> Seq<char> {
    "ALAS_LAUNCHER_PID="@ + decimal(launcher_pid as nat)
}

/// Processes as their ids and environment entries.
pub open spec fn process_views(procs: Seq<(u32, Vec<String>)>) -> Seq<(u32, Seq<Seq<char>>)> {
    procs.map_values(|p: (u32, Vec<String>)| (p.0, strings_of(p.1@)))
}

/// The processes, in order, that a launcher with id `me` started and that
/// may outlive the backend: every other process whose environment holds
/// `ALAS_LAUNCHER_PID=` and `me`.
pub open spec fn leaked_pids(procs: Seq<(u32, Seq<Seq<char>>)>, me: u32) -> Seq<u32>
    decreases procs.len(),
{
    if procs.len() == 0 {
        Seq::empty()
    } else {
        let rest = leaked_pids(procs.drop_last(), me);
        let p = procs.last();
        if p.0 != me && p.1.contains(launcher_pid_entry(me)) {
            rest.push(p.0)
        } else {
            rest
        }
    }
}

/// The processes to stop when the backend is dropped: those this launcher
/// started, found by the environment entry it gave them.
pub fn leaked_launcher_pids(procs: &Vec<(u32, Vec<String>)>, me: u32) -> (r: Vec<u32>)
    ensures
        r@ == leaked_pids(process_views(procs@), me),
{
    let mut entry = String::from_str("ALAS_LAUNCHER_PID=");
    push_str(&mut entry, decimal_string(me as u64).as_str());
    let key = chars_of(entry.as_str());
    assert(key@ == launcher_pid_entry(me));
    let ghost views = process_views(procs@);
    let mut r: Vec<u32> = Vec::new();
    let mut i: usize = 0;
    while i < procs.len()
        invariant
            i <= procs.len(),
            views == process_views(procs@),
            key@ == launcher_pid_entry(me),
            r@ == leaked_pids(views.take(i as int), me),
        decreases procs.len() - i,
    {
        let pid = procs[i].0;
        let env = &procs[i].1;
        let ghost envs = strings_of(env@);
        let mut found = false;
        let mut j: usize = 0;
        while j < env.len()
            invariant
                j <= env.len(),
                envs == strings_of(env@),
                key@ == launcher_pid_entry(me),
                found == exists|k: int| 0 <= k < j && envs[k] == key@,
            decreases env.len() - j,
        {
            let e = chars_of(env[j].as_str());
            assert(e@ == envs[j as int]);
            if chars_eq(&e, &key) {
                found = true;
            }
            j = j + 1;
        }
        assert(found == envs.contains(launcher_pid_entry(me)));
        assert(views.take(i + 1).drop_last() =~= views.take(i as int));
        assert(views.take(i + 1).last() == (pid, envs));
        if pid != me && found {
            r.push(pid);
        }
        i = i + 1;
    }
    assert(views.take(procs.len() as int) =~= views);
    r
}

} // verus!
