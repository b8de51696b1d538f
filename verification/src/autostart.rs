//! Starting the launcher when the user logs on, through a scheduled task
//! on Windows: the task's definition, how its state is read back, and
//! what each step of turning it on or off decides. Running `schtasks` and
//! the files it reads happen outside; their results come back here.
use vstd::prelude::*;
use vstd::string::*;
use crate::encoding::{
    decode_utf16_lossy, decode_utf8_lossy, encode_utf16, le_bytes, le_bytes_of, le_units,
    units_from_le_bytes, utf16_encode, utf16_lossy, utf8_lossy,
};
use crate::platform::Platform;
use crate::text::{
    chars_of, contains, contains_chars, lower, lower_chars, push_chars, push_str, string_of,
    trim, trim_chars,
};

verus! {

/// The scheduled task's name.
pub const TASK_NAME: &'static str = "AzurNext";

/// The argument the task starts the launcher with.
pub const START_MINIMIZED_ARG: &'static str = "--start-minimized";

/// The task definition up to the program it runs.
pub const TASK_XML_HEAD: &'static str = "<?xml version=\"1.0\" encoding=\"UTF-16\"?>
<Task version=\"1.2\" xmlns=\"http://schemas.microsoft.com/windows/2004/02/mit/task\">
  <RegistrationInfo>
    <Description>AzurNext Launcher AutoStart</Description>
  </RegistrationInfo>
  <Triggers>
    <LogonTrigger>
      <Enabled>true</Enabled>
    </LogonTrigger>
  </Triggers>
  <Principals>
    <Principal id=\"Author\">
      <LogonType>InteractiveToken</LogonType>
      <RunLevel>HighestAvailable</RunLevel>
    </Principal>
  </Principals>
  <Settings>
    <MultipleInstancesPolicy>IgnoreNew</MultipleInstancesPolicy>
    <DisallowStartIfOnBatteries>false</DisallowStartIfOnBatteries>
    <StopIfGoingOnBatteries>false</StopIfGoingOnBatteries>
    <AllowHardTerminate>true</AllowHardTerminate>
    <StartWhenAvailable>true</StartWhenAvailable>
    <RunOnlyIfNetworkAvailable>false</RunOnlyIfNetworkAvailable>
    <IdleSettings>
      <StopOnIdleEnd>false</StopOnIdleEnd>
      <RestartOnIdle>false</RestartOnIdle>
    </IdleSettings>
    <AllowStartOnDemand>true</AllowStartOnDemand>
    <Enabled>true</Enabled>
    <Hidden>false</Hidden>
    <RunOnlyIfIdle>false</RunOnlyIfIdle>
    <WakeToRun>false</WakeToRun>
    <ExecutionTimeLimit>PT0S</ExecutionTimeLimit>
    <Priority>7</Priority>
  </Settings>
  <Actions Context=\"Author\">
    <Exec>
      <Command>";

/// Between the program and its arguments.
pub const TASK_XML_AFTER_COMMAND: &'static str = "</Command>
      <Arguments>";

/// Between the arguments and the working directory.
pub const TASK_XML_AFTER_ARGUMENTS: &'static str = "</Arguments>
      <WorkingDirectory>";

/// After the working directory.
pub const TASK_XML_TAIL: &'static str = "</WorkingDirectory>
    </Exec>
  </Actions>
</Task>";

/// Whether the launcher starts at logon, whether this system can, and the
/// command the task runs.
#[derive(Debug)]
pub struct AutostartStatus {
    pub enabled: bool,
    pub supported: bool,
    pub value: Option<String>,
}

/// What was learnt about the scheduled task.
#[derive(Debug)]
pub enum AutostartProbe {
    /// Not on Windows: there are no scheduled tasks to ask.
    Unsupported,
    /// `schtasks` could not run, or knows no such task.
    NoTask,
    /// The task's definition as `schtasks /Query /XML` printed it, and the
    /// path of the running launcher when it is known.
    Task { xml: Vec<u8>, current_exe: Option<String> },
}

/// The registry key where older launchers kept their autostart value.
pub const LEGACY_RUN_KEY_PATH: &'static str = "Software\\Microsoft\\Windows\\CurrentVersion\\Run";

/// The name of that older autostart value.
pub const LEGACY_RUN_VALUE_NAME: &'static str = "AzurNext";

/// A step that changes how the launcher starts at logon.
#[derive(Debug, Clone, Copy, PartialEq, Eq, Structural)]
pub enum AutostartStep {
    /// Remove the autostart value older launchers left in the user's `Run`
    /// registry key, whether or not it is there; its failure is ignored.
    RemoveLegacyRunValue,
    /// Write the task definition and register it, replacing an older one.
    CreateTask,
    /// Remove the task.
    DeleteTask,
}

/// How a run of `schtasks` went.
#[derive(Debug)]
pub enum SchtasksOutcome {
    /// It could not be started, for this reason.
    NotStarted { error: String },
    /// It ran, and printed this.
    Finished { success: bool, stdout: Vec<u8>, stderr: Vec<u8> },
}

/// Why the scheduled task could not be changed.
#[derive(Debug, Clone, PartialEq, Eq)]
pub enum AutostartError {
    /// Not on Windows.
    Unsupported,
    /// `schtasks` could not be started, for this reason.
    LaunchFailed(String),
    /// `schtasks` refused to create the task; what it said.
    CreateFailed(String),
    /// Preparing the task definition failed, for this reason.
    Io(String),
}

impl AutostartError {
    pub open spec fn text(self) -> Seq<char> {
        match self {
            AutostartError::Unsupported => "Autostart is only supported on Windows"@,
            AutostartError::LaunchFailed(e) => "Failed to execute schtasks: "@ + e@,
            AutostartError::CreateFailed(d) => "Failed to create scheduled task: "@ + d@,
            AutostartError::Io(m) => m@,
        }
    }

    /// The error's message.
    pub fn message(&self) -> (s: String)
        ensures
            s@ == self.text(),
    {
        match self {
            AutostartError::Unsupported => String::from_str("Autostart is only supported on Windows"),
            AutostartError::LaunchFailed(e) => {
                let mut s = String::from_str("Failed to execute schtasks: ");
                push_str(&mut s, e.as_str());
                s
            },
            AutostartError::CreateFailed(d) => {
                let mut s = String::from_str("Failed to create scheduled task: ");
                push_str(&mut s, d.as_str());
                s
            },
            AutostartError::Io(m) => m.clone(),
        }
    }
}

/// How one character is written inside XML text.
pub open spec fn xml_escaped_char(c: char) -> Seq<char> {
    if c == '&' {
        "&amp;"@
    } else if c == '<' {
        "&lt;"@
    } else if c == '>' {
        "&gt;"@
    } else if c == '"' {
        "&quot;"@
    } else if c == '\'' {
        "&apos;"@
    } else {
        seq![c]
    }
}

/// Text written inside XML, the five special characters escaped.
pub open spec fn xml_escaped(s: Seq<char>) -> Seq<char>
    decreases s.len(),
{
    if s.len() == 0 {
        Seq::empty()
    } else {
        xml_escaped(s.drop_last()) + xml_escaped_char(s.last())
    }
}

/// Escapes text for XML.
pub fn xml_escape(s: &str) -> (r: String)
    ensures
        r@ == xml_escaped(s@),
{
    let cs = chars_of(s);
    let mut out = String::new();
    let mut i: usize = 0;
    while i < cs.len()
        invariant
            i <= cs.len(),
            cs@ == s@,
            out@ == xml_escaped(cs@.take(i as int)),
        decreases cs.len() - i,
    {
        let c = cs[i];
        assert(cs@.take(i + 1).drop_last() =~= cs@.take(i as int));
        assert(cs@.take(i + 1).last() == c);
        if c == '&' {
            push_str(&mut out, "&amp;");
        } else if c == '<' {
            push_str(&mut out, "&lt;");
        } else if c == '>' {
            push_str(&mut out, "&gt;");
        } else if c == '"' {
            push_str(&mut out, "&quot;");
        } else if c == '\'' {
            push_str(&mut out, "&apos;");
        } else {
            crate::text::push_char(&mut out, c);
            assert(seq![c] =~= xml_escaped_char(c));
        }
        i = i + 1;
    }
    assert(cs@.take(cs.len() as int) =~= cs@);
    out
}

/// The scheduled task's definition: run `exe` with the start-minimized
/// argument, in `working_dir`, at logon, with the highest privileges
/// available.
pub open spec fn task_xml(exe: Seq<char>, working_dir: Seq<char>) -> Seq<char> {
    TASK_XML_HEAD@ + xml_escaped(exe) + TASK_XML_AFTER_COMMAND@ + xml_escaped(START_MINIMIZED_ARG@)
        + TASK_XML_AFTER_ARGUMENTS@ + xml_escaped(working_dir) + TASK_XML_TAIL@
}

/// Writes the scheduled task's definition.
pub fn build_task_xml(exe_path: &str, working_dir: &str) -> (r: String)
    ensures
        r@ == task_xml(exe_path@, working_dir@),
{
    let mut s = String::from_str(TASK_XML_HEAD);
    let e = xml_escape(exe_path);
    push_str(&mut s, e.as_str());
    push_str(&mut s, TASK_XML_AFTER_COMMAND);
    let a = xml_escape(START_MINIMIZED_ARG);
    push_str(&mut s, a.as_str());
    push_str(&mut s, TASK_XML_AFTER_ARGUMENTS);
    let d = xml_escape(working_dir);
    push_str(&mut s, d.as_str());
    push_str(&mut s, TASK_XML_TAIL);
    s
}

/// The bytes of the file `schtasks /Create /XML` reads: UTF-16
/// little-endian, after a byte order mark.
pub open spec fn task_file_bytes(xml: Seq<char>) -> Seq<u8> {
    le_bytes(seq![0xFEFFu16] + utf16_encode(xml))
}

/// Writes a task definition the way `schtasks` reads it.
pub fn encode_task_file(xml: &str) -> (r: Vec<u8>)
    ensures
        r@ == task_file_bytes(xml@),
{
    let units = encode_utf16(&chars_of(xml));
    let mut all: Vec<u16> = Vec::new();
    all.push(0xFEFF);
    let mut i: usize = 0;
    while i < units.len()
        invariant
            i <= units.len(),
            all@ == seq![0xFEFFu16] + units@.take(i as int),
        decreases units.len() - i,
    {
        all.push(units[i]);
        i = i + 1;
        assert(all@ =~= seq![0xFEFFu16] + units@.take(i as int));
    }
    assert(units@.take(units.len() as int) =~= units@);
    le_bytes_of(&all)
}

/// What `schtasks /Query /XML` printed, as text: UTF-16 little-endian after
/// a byte order mark, else UTF-8 with invalid bytes replaced.
pub open spec fn query_text(raw: Seq<u8>) -> Seq<char> {
    if raw.len() >= 2 && raw[0] == 0xFF && raw[1] == 0xFE {
        utf16_lossy(le_units(raw.skip(2)))
    } else {
        utf8_lossy(raw)
    }
}

/// Reads what `schtasks /Query /XML` printed.
pub fn decode_query_output(raw: &Vec<u8>) -> (s: String)
    ensures
        s@ == query_text(raw@),
{
    if raw.len() >= 2 && raw[0] == 0xFF && raw[1] == 0xFE {
        let rest = &raw.as_slice()[2..raw.len()];
        assert(rest@ =~= raw@.skip(2));
        let units = units_from_le_bytes(rest);
        decode_utf16_lossy(&units)
    } else {
        decode_utf8_lossy(raw.as_slice())
    }
}

/// A path compared loosely: trimmed, `/` read as `\`, ASCII letters in
/// lower case.
pub open spec fn normalized_path(s: Seq<char>) -> Seq<char> {
    lower(trim(s).map_values(|c: char| if c == '/' { '\\' } else { c }))
}

fn normalize_path(value: &str) -> (r: Vec<char>)
    ensures
        r@ == normalized_path(value@),
{
    let t = trim_chars(&chars_of(value));
    let mut v: Vec<char> = Vec::new();
    let mut i: usize = 0;
    while i < t.len()
        invariant
            i <= t.len(),
            v@ == t@.take(i as int).map_values(|c: char| if c == '/' { '\\' } else { c }),
        decreases t.len() - i,
    {
        let c = t[i];
        v.push(
            if c == '/' {
                '\\'
            } else {
                c
            },
        );
        i = i + 1;
        assert(v@ =~= t@.take(i as int).map_values(|c: char| if c == '/' { '\\' } else { c }));
    }
    assert(t@.take(t.len() as int) =~= t@);
    lower_chars(&v)
}

/// The command the task runs for the launcher at `exe`.
pub open spec fn task_command(exe: Seq<char>) -> Seq<char> {
    "\""@ + exe + "\" "@ + START_MINIMIZED_ARG@
}

/// The task runs the current launcher when its definition names the
/// launcher's path (compared loosely); when that path is unknown, any task
/// counts.
pub open spec fn task_runs_current(xml: Seq<char>, current_exe: Option<Seq<char>>) -> bool {
    match current_exe {
        Some(exe) => contains(normalized_path(xml), normalized_path(exe)),
        None => true,
    }
}

/// The autostart status that a probe shows.
pub open spec fn status_matches(s: AutostartStatus, probe: AutostartProbe) -> bool {
    match probe {
        AutostartProbe::Unsupported => !s.enabled && !s.supported && s.value is None,
        AutostartProbe::NoTask => !s.enabled && s.supported && s.value is None,
        AutostartProbe::Task { xml, current_exe } => {
            let exe = match current_exe {
                Some(e) => Some(e@),
                None => None,
            };
            let on = task_runs_current(query_text(xml@), exe);
            &&& s.enabled == on
            &&& s.supported
            &&& match s.value {
                Some(v) => on && exe is Some && v@ == task_command(exe->0),
                None => !(on && exe is Some),
            }
        },
    }
}

fn task_command_string(exe: &str) -> (r: String)
    ensures
        r@ == task_command(exe@),
{
    let mut s = String::from_str("\"");
    push_str(&mut s, exe);
    push_str(&mut s, "\" ");
    push_str(&mut s, START_MINIMIZED_ARG);
    s
}

/// Whether the launcher starts at logon, from what was learnt about the
/// scheduled task. Never an error.
pub fn query(probe: AutostartProbe) -> (r: Result<AutostartStatus, AutostartError>)
    ensures
        r matches Ok(s) && status_matches(s, probe),
{
    match probe {
        AutostartProbe::Unsupported => Ok(AutostartStatus { enabled: false, supported: false, value: None }),
        AutostartProbe::NoTask => Ok(AutostartStatus { enabled: false, supported: true, value: None }),
        AutostartProbe::Task { xml, current_exe } => {
            let text = decode_query_output(&xml);
            let on = match &current_exe {
                Some(exe) => {
                    let norm_current = normalize_path(exe.as_str());
                    let norm_xml = normalize_path(text.as_str());
                    contains_chars(&norm_xml, &norm_current)
                },
                None => true,
            };
            let value = if on {
                match &current_exe {
                    Some(exe) => Some(task_command_string(exe.as_str())),
                    None => None,
                }
            } else {
                None
            };
            Ok(AutostartStatus { enabled: on, supported: true, value })
        },
    }
}

/// The steps of turning autostart on or off: refused off Windows;
/// otherwise first remove the older launchers' `Run` value, so the
/// launcher is never started twice, then create or delete the task.
pub fn set_enabled(enabled: bool, platform: Platform) -> (r: Result<Vec<AutostartStep>, AutostartError>)
    ensures
        platform != Platform::Windows ==> r == Err::<Vec<AutostartStep>, AutostartError>(
            AutostartError::Unsupported,
        ),
        platform == Platform::Windows ==> (r matches Ok(steps) && steps@ == seq![
            AutostartStep::RemoveLegacyRunValue,
            if enabled {
                AutostartStep::CreateTask
            } else {
                AutostartStep::DeleteTask
            },
        ]),
{
    match platform {
        Platform::Windows => {
            let steps = vec![
                AutostartStep::RemoveLegacyRunValue,
                if enabled {
                    AutostartStep::CreateTask
                } else {
                    AutostartStep::DeleteTask
                },
            ];
            Ok(steps)
        },
        _ => Err(AutostartError::Unsupported),
    }
}

/// What `schtasks` said when it refused to create the task: its error
/// output, trimmed, or else its normal output, trimmed.
pub open spec fn refusal_detail(stdout: Seq<u8>, stderr: Seq<u8>) -> Seq<char> {
    if trim(utf8_lossy(stderr)).len() > 0 {
        trim(utf8_lossy(stderr))
    } else {
        trim(utf8_lossy(stdout))
    }
}

/// Takes in how the step's run of `schtasks` went; on success the status
/// is read again with `query`.
pub fn finish_set_enabled(step: AutostartStep, outcome: SchtasksOutcome) -> (r: Result<
    (),
    AutostartError,
>)
    ensures
        match outcome {
            SchtasksOutcome::NotStarted { error } => r == Err::<(), AutostartError>(
                AutostartError::LaunchFailed(error),
            ),
            SchtasksOutcome::Finished { success, stdout, stderr } => if step
                == AutostartStep::CreateTask && !success {
                r matches Err(AutostartError::CreateFailed(d)) && d@ == refusal_detail(
                    stdout@,
                    stderr@,
                )
            } else {
                r is Ok
            },
        },
{
    match outcome {
        SchtasksOutcome::NotStarted { error } => Err(AutostartError::LaunchFailed(error)),
        SchtasksOutcome::Finished { success, stdout, stderr } => {
            if matches!(step, AutostartStep::CreateTask) && !success {
                let err = trim_chars(&chars_of(decode_utf8_lossy(stderr.as_slice()).as_str()));
                let detail = if err.len() > 0 {
                    string_of(&err)
                } else {
                    string_of(&trim_chars(&chars_of(decode_utf8_lossy(stdout.as_slice()).as_str())))
                };
                Err(AutostartError::CreateFailed(detail))
            } else {
                Ok(())
            }
        },
    }
}

/// A task file the launcher writes reads back, as `schtasks` output is
/// read, as the definition it was written from.
pub proof fn lemma_task_file_reads_back(xml: Seq<char>)
    ensures
        query_text(task_file_bytes(xml)) == xml,
{
    let all = seq![0xFEFFu16] + utf16_encode(xml);
    let raw = task_file_bytes(xml);
    assert(raw[0] == 0xFFu8);
    assert(raw[1] == 0xFEu8);
    crate::encoding::lemma_le_round_trip(all);
    let rest = raw.skip(2);
    assert(le_units(rest) =~= utf16_encode(xml)) by {
        assert forall|i: int| 0 <= i < le_units(rest).len() implies le_units(rest)[i]
            == le_units(raw)[i + 1] by {
            assert(rest[2 * i] == raw[2 * (i + 1)]);
            assert(rest[2 * i + 1] == raw[2 * (i + 1) + 1]);
        }
        assert(all.drop_first() =~= utf16_encode(xml));
    }
    crate::encoding::lemma_utf16_round_trip(xml);
}

/// Escaped text holds none of `<`, `>`, `"` and `'`, so it cannot end the
/// element or the attribute it is written in.
pub proof fn lemma_xml_escaped_is_plain(s: Seq<char>)
    ensures
        forall|i: int|
            0 <= i < xml_escaped(s).len() ==> #[trigger] xml_escaped(s)[i] != '<' && xml_escaped(
                s,
            )[i] != '>' && xml_escaped(s)[i] != '"' && xml_escaped(s)[i] != '\'',
    decreases s.len(),
{
    if s.len() > 0 {
        lemma_xml_escaped_is_plain(s.drop_last());
        let p = xml_escaped(s.drop_last());
        let e = xml_escaped_char(s.last());
        reveal_strlit("&amp;");
        reveal_strlit("&lt;");
        reveal_strlit("&gt;");
        reveal_strlit("&quot;");
        reveal_strlit("&apos;");
        assert forall|i: int| 0 <= i < xml_escaped(s).len() implies #[trigger] xml_escaped(s)[i]
            != '<' && xml_escaped(s)[i] != '>' && xml_escaped(s)[i] != '"' && xml_escaped(s)[i]
            != '\'' by {
            if i >= p.len() {
                assert(xml_escaped(s)[i] == e[i - p.len()]);
            } else {
                assert(xml_escaped(s)[i] == p[i]);
            }
        }
    }
}

} // verus!
