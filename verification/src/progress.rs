//! Progress of the setup scripts: the splash screen's contents, and what
//! the launcher makes of the lines the repository update and the dependency
//! sync print.
use vstd::prelude::*;
use vstd::string::*;
use crate::percent::{find_percentage, percent_in};
use crate::text::{
    chars_of, contains, decimal, decimal_string, push_str, contains_str, ends_with, lower, lower_chars, occurs_at,
    occurs_at_chars, push_char, slice_chars, split_on, split_on_chars, starts_with,
    starts_with_str, string_of, trim, trim_chars,
};
use crate::backend::words_of;

verus! {

/// The dependency sync's own progress bar.
#[derive(Clone, Debug)]
pub struct UvProgress {
    pub progress: u8,
    pub detail: String,
}

/// What the splash screen shows while the launcher prepares the runtime.
#[derive(Clone, Debug)]
pub struct SplashUpdate {
    pub subtitle: String,
    pub title: String,
    pub detail: String,
    pub progress: u8,
    pub uv_progress: Option<UvProgress>,
    pub is_error: bool,
}

pub open spec fn min_u8(a: u8, b: u8) -> u8 {
    if a <= b {
        a
    } else {
        b
    }
}

pub open spec fn max_u8(a: u8, b: u8) -> u8 {
    if a >= b {
        a
    } else {
        b
    }
}

impl SplashUpdate {
    /// A step in progress; the progress is capped at 100.
    pub fn loading(subtitle: String, title: String, detail: String, progress: u8) -> (r: Self)
        ensures
            r.subtitle == subtitle,
            r.title == title,
            r.detail == detail,
            r.progress == min_u8(progress, 100),
            r.uv_progress is None,
            !r.is_error,
    {
        SplashUpdate {
            subtitle,
            title,
            detail,
            progress: if progress <= 100 {
                progress
            } else {
                100
            },
            uv_progress: None,
            is_error: false,
        }
    }

    /// A failed step; the progress is capped at 100.
    pub fn error(subtitle: String, title: String, detail: String, progress: u8) -> (r: Self)
        ensures
            r.subtitle == subtitle,
            r.title == title,
            r.detail == detail,
            r.progress == min_u8(progress, 100),
            r.uv_progress is None,
            r.is_error,
    {
        SplashUpdate {
            subtitle,
            title,
            detail,
            progress: if progress <= 100 {
                progress
            } else {
                100
            },
            uv_progress: None,
            is_error: true,
        }
    }

    /// The same update under another subtitle.
    pub fn with_subtitle(self, subtitle: String) -> (r: Self)
        ensures
            r == (SplashUpdate { subtitle, ..self }),
    {
        SplashUpdate { subtitle, ..self }
    }

    /// The same update with the dependency sync's own bar; its progress is
    /// capped at 100.
    pub fn with_uv_progress(self, progress: u8, detail: String) -> (r: Self)
        ensures
            r == (SplashUpdate {
                uv_progress: Some(UvProgress { progress: min_u8(progress, 100), detail }),
                ..self
            }),
    {
        let p = if progress <= 100 {
            progress
        } else {
            100
        };
        SplashUpdate { uv_progress: Some(UvProgress { progress: p, detail }), ..self }
    }
}

/// `percentage` percent of the way from `start` to `end` (percentages
/// above 100 count as 100), rounded down.
pub open spec fn scaled(percentage: u8, start: u8, end: u8) -> u8 {
    let p = if percentage <= 100 {
        percentage as int
    } else {
        100
    };
    (start + (p * (end - start)) / 100) as u8
}

/// Maps a percentage onto a stretch of the overall progress.
pub fn scale_progress(percentage: u8, start: u8, end: u8) -> (r: u8)
    requires
        start <= end,
    ensures
        r == scaled(percentage, start, end),
        start <= r <= end,
{
    let p: u16 = if percentage <= 100 {
        percentage as u16
    } else {
        100
    };
    let s = start as u16;
    let e = end as u16;
    assert(p * (e - s) <= 100 * (e - s)) by (nonlinear_arith)
        requires
            p <= 100,
            s <= e,
    ;
    assert((p * (e - s)) / 100 <= e - s) by (nonlinear_arith)
        requires
            p * (e - s) <= 100 * (e - s),
    ;
    (s + (p * (e - s)) / 100) as u8
}

/// Overall progress while dependencies sync: the sync's own progress
/// mapped onto 64..90.
pub fn dependency_global_progress(uv_progress: u8) -> (r: u8)
    ensures
        r == scaled(uv_progress, 64, 90),
        64 <= r <= 90,
{
    scale_progress(uv_progress, 64, 90)
}

/// The overall progress a section banner of the repository update stands for.
pub open spec fn section_progress(section: Seq<char>) -> Option<u8> {
    if contains(section, "SHOW DEPLOY CONFIG"@) {
        Some(18)
    } else if contains(section, "UPDATE AZURPILOT"@) || contains(section, "UPDATE AZURNEXT"@) {
        Some(20)
    } else if contains(section, "GIT INIT"@) {
        Some(22)
    } else if contains(section, "SET GIT PROXY"@) {
        Some(23)
    } else if contains(section, "SET GIT REPOSITORY"@) {
        Some(24)
    } else if contains(section, "FETCH REPOSITORY BRANCH"@) {
        Some(25)
    } else if contains(section, "PULL REPOSITORY BRANCH"@) {
        Some(58)
    } else if contains(section, "SHOW VERSION"@) {
        Some(63)
    } else {
        None
    }
}

/// The overall progress a section banner of the repository update stands for.
pub fn git_section_progress(section: &str) -> (r: Option<u8>)
    ensures
        r == section_progress(section@),
{
    let v = chars_of(section);
    if contains_str(&v, "SHOW DEPLOY CONFIG") {
        Some(18)
    } else if contains_str(&v, "UPDATE AZURPILOT") || contains_str(&v, "UPDATE AZURNEXT") {
        Some(20)
    } else if contains_str(&v, "GIT INIT") {
        Some(22)
    } else if contains_str(&v, "SET GIT PROXY") {
        Some(23)
    } else if contains_str(&v, "SET GIT REPOSITORY") {
        Some(24)
    } else if contains_str(&v, "FETCH REPOSITORY BRANCH") {
        Some(25)
    } else if contains_str(&v, "PULL REPOSITORY BRANCH") {
        Some(58)
    } else if contains_str(&v, "SHOW VERSION") {
        Some(63)
    } else {
        None
    }
}

/// The overall progress a git transfer line stands for: its percentage
/// mapped onto the stretch of the stage it reports.
pub open spec fn line_progress(line: Seq<char>) -> Option<u8> {
    match percent_in(line) {
        None => None,
        Some(p) => if contains(line, "Counting objects:"@) || contains(
            line,
            "Compressing objects:"@,
        ) {
            Some(scaled(p, 25, 29))
        } else if contains(line, "Receiving objects:"@) {
            Some(scaled(p, 29, 52))
        } else if contains(line, "Resolving deltas:"@) {
            Some(scaled(p, 52, 58))
        } else if contains(line, "Updating files:"@) {
            Some(scaled(p, 58, 62))
        } else {
            None
        },
    }
}

/// The overall progress a git transfer line stands for.
pub fn git_line_progress(line: &str) -> (r: Option<u8>)
    ensures
        r == line_progress(line@),
{
    let p = match find_percentage(line) {
        Some(p) => p,
        None => {
            return None;
        },
    };
    let v = chars_of(line);
    if contains_str(&v, "Counting objects:") || contains_str(&v, "Compressing objects:") {
        Some(scale_progress(p, 25, 29))
    } else if contains_str(&v, "Receiving objects:") {
        Some(scale_progress(p, 29, 52))
    } else if contains_str(&v, "Resolving deltas:") {
        Some(scale_progress(p, 52, 58))
    } else if contains_str(&v, "Updating files:") {
        Some(scale_progress(p, 58, 62))
    } else {
        None
    }
}

/// The furthest the repository update has got.
pub struct GitProgressState {
    pub progress: u8,
}

impl GitProgressState {
    pub fn new() -> (r: Self)
        ensures
            r.progress == 0,
    {
        GitProgressState { progress: 0 }
    }
}

/// What a repository update line puts on the splash screen.
pub struct GitSplash {
    pub progress: u8,
    pub detail: String,
}

/// A banner line with its `=` signs turned into spaces, trimmed.
pub open spec fn banner_text(line: Seq<char>) -> Seq<char> {
    trim(line.map_values(|c: char| if c == '=' {
        ' '
    } else {
        c
    }))
}

/// The splash screen's progress and detail for a (trimmed) line of the
/// repository update, with the progress reached before; `None` when the
/// line tells nothing.
pub open spec fn git_output_update(line: Seq<char>, before: u8) -> Option<(u8, Seq<char>)> {
    let found = if contains(line, "====="@) {
        let d = banner_text(line);
        Some(
            (
                match section_progress(d) {
                    Some(p) => p,
                    None => 24,
                },
                d,
            ),
        )
    } else {
        match line_progress(line) {
            Some(p) => Some((p, line)),
            None => None,
        }
    };
    match found {
        Some((p, d)) => Some(
            (
                max_u8(before, p),
                if trim(d).len() == 0 {
                    line
                } else {
                    d
                },
            ),
        ),
        None => None,
    }
}

/// Reads a (trimmed) line of the repository update. The progress never
/// goes back.
pub fn splash_update_for_git_output(line: &str, state: &mut GitProgressState) -> (r: Option<
    GitSplash,
>)
    ensures
        match git_output_update(line@, old(state).progress) {
            Some((p, d)) => (r matches Some(u) && u.progress == min_u8(p, 100) && u.detail@ == d)
                && final(state).progress == p,
            None => r is None && final(state).progress == old(state).progress,
        },
{
    let v = chars_of(line);
    let found: Option<(u8, Vec<char>)> = if contains_str(&v, "=====") {
        let mut replaced: Vec<char> = Vec::new();
        let mut i: usize = 0;
        while i < v.len()
            invariant
                i <= v.len(),
                replaced@ == v@.take(i as int).map_values(|c: char| if c == '=' {
                    ' '
                } else {
                    c
                }),
            decreases v.len() - i,
        {
            replaced.push(
                if v[i] == '=' {
                    ' '
                } else {
                    v[i]
                },
            );
            i = i + 1;
            assert(replaced@ =~= v@.take(i as int).map_values(|c: char| if c == '=' {
                ' '
            } else {
                c
            }));
        }
        assert(v@.take(v.len() as int) =~= v@);
        let d = trim_chars(&replaced);
        let ds = string_of(&d);
        let p = match git_section_progress(ds.as_str()) {
            Some(p) => p,
            None => 24,
        };
        Some((p, d))
    } else {
        match git_line_progress(line) {
            Some(p) => Some((p, v)),
            None => None,
        }
    };
    match found {
        Some((p, d)) => {
            if p > state.progress {
                state.progress = p;
            }
            let shown = if trim_chars(&d).len() == 0 {
                chars_of(line)
            } else {
                d
            };
            let progress = if state.progress <= 100 {
                state.progress
            } else {
                100
            };
            Some(GitSplash { progress, detail: string_of(&shown) })
        },
        None => None,
    }
}

/// The first place `p` occurs in `s` at or after `i`.
pub open spec fn find_from(s: Seq<char>, p: Seq<char>, i: int) -> Option<int>
    decreases s.len() - i,
{
    if i < 0 || i + p.len() > s.len() {
        None
    } else if p.len() == 0 || occurs_at(s, p, i) {
        Some(i)
    } else {
        find_from(s, p, i + 1)
    }
}

/// What comes before the first `p` in `s` (`str::split_once`'s first half).
pub open spec fn before_first(s: Seq<char>, p: Seq<char>) -> Option<Seq<char>> {
    match find_from(s, p, 0) {
        Some(i) => Some(s.take(i)),
        None => None,
    }
}

fn before_first_exec(s: &Vec<char>, p: &str) -> (r: Option<Vec<char>>)
    ensures
        match r {
            Some(x) => before_first(s@, p@) == Some(x@),
            None => before_first(s@, p@) is None,
        },
{
    let pv = chars_of(p);
    if pv.len() == 0 {
        let e: Vec<char> = Vec::new();
        assert(s@.take(0) =~= e@);
        return Some(e);
    }
    let mut i: usize = 0;
    assert(find_from(s@, p@, 0) == find_from(s@, p@, i as int));
    while i <= s.len() && pv.len() <= s.len() - i
        invariant
            i <= s.len() + 1,
            pv@ == p@,
            pv.len() > 0,
            find_from(s@, p@, 0) == find_from(s@, p@, i as int),
        decreases s.len() + 1 - i,
    {
        if occurs_at_chars(s, &pv, i) {
            return Some(slice_chars(s, 0, i));
        }
        i = i + 1;
    }
    None
}

/// A package name as the launcher counts it: trimmed, in ASCII lower case,
/// none when empty.
pub open spec fn normalized_name(name: Seq<char>) -> Option<Seq<char>> {
    let n = lower(trim(name));
    if n.len() == 0 {
        None
    } else {
        Some(n)
    }
}

/// The package a `Downloading <name>[==version] (<size>)` line is about.
pub open spec fn downloading_package(line: Seq<char>) -> Option<Seq<char>> {
    if !starts_with(line, "Downloading "@) {
        None
    } else {
        let rest = line.skip(12);
        let name = match before_first(rest, "=="@) {
            Some(n) => n,
            None => match before_first(rest, " @ "@) {
                Some(n) => n,
                None => match before_first(rest, " ("@) {
                    Some(n) => n,
                    None => rest,
                },
            },
        };
        normalized_name(name)
    }
}

/// The package a `Downloaded <name>[==version] ...` line is about.
pub open spec fn downloaded_package(line: Seq<char>) -> Option<Seq<char>> {
    if !starts_with(line, "Downloaded "@) {
        None
    } else {
        let words = words_of(line.skip(11));
        if words.len() == 0 {
            None
        } else {
            let w = words[0];
            normalized_name(
                match before_first(w, "=="@) {
                    Some(n) => n,
                    None => w,
                },
            )
        }
    }
}

/// The size text of a `Downloading` line: what stands between its last `(`
/// and a closing `)` that ends the line.
pub open spec fn download_size_text(line: Seq<char>) -> Option<Seq<char>> {
    let parts = split_on(line, '(');
    if parts.len() < 2 {
        None
    } else if parts.last().len() > 0 && parts.last().last() == ')' {
        Some(parts.last().drop_last())
    } else {
        None
    }
}

fn normalize_uv_package_name(name: &Vec<char>) -> (r: Option<String>)
    ensures
        match r {
            Some(s) => normalized_name(name@) == Some(s@),
            None => normalized_name(name@) is None,
        },
{
    let n = lower_chars(&trim_chars(name));
    if n.len() == 0 {
        None
    } else {
        Some(string_of(&n))
    }
}

/// The package a `Downloading` line is about.
pub fn extract_uv_package_name(line: &str) -> (r: Option<String>)
    ensures
        match r {
            Some(s) => downloading_package(line@) == Some(s@),
            None => downloading_package(line@) is None,
        },
{
    let v = chars_of(line);
    if !starts_with_str(&v, "Downloading ") {
        return None;
    }
    proof {
        reveal_strlit("Downloading ");
    }
    let rest = slice_chars(&v, 12, v.len());
    assert(rest@ =~= line@.skip(12));
    let name = match before_first_exec(&rest, "==") {
        Some(n) => n,
        None => match before_first_exec(&rest, " @ ") {
            Some(n) => n,
            None => match before_first_exec(&rest, " (") {
                Some(n) => n,
                None => rest,
            },
        },
    };
    normalize_uv_package_name(&name)
}

/// The package a `Downloaded` line is about.
pub fn extract_uv_downloaded_package_name(line: &str) -> (r: Option<String>)
    ensures
        match r {
            Some(s) => downloaded_package(line@) == Some(s@),
            None => downloaded_package(line@) is None,
        },
{
    let v = chars_of(line);
    if !starts_with_str(&v, "Downloaded ") {
        return None;
    }
    proof {
        reveal_strlit("Downloaded ");
    }
    let rest = slice_chars(&v, 11, v.len());
    assert(rest@ =~= line@.skip(11));
    let words = crate::backend::words_chars(&rest);
    if words.len() == 0 {
        return None;
    }
    let w = slice_chars(&words[0], 0, words[0].len());
    assert(w@ =~= words_of(rest@)[0]);
    let name = match before_first_exec(&w, "==") {
        Some(n) => n,
        None => w,
    };
    normalize_uv_package_name(&name)
}

/// The size text of a `Downloading` line, for the caller to read as a
/// number of bytes.
pub fn uv_download_size_text(line: &str) -> (r: Option<String>)
    ensures
        match r {
            Some(s) => download_size_text(line@) == Some(s@),
            None => download_size_text(line@) is None,
        },
{
    let v = chars_of(line);
    let parts = split_on_chars(&v, '(');
    if parts.len() < 2 {
        return None;
    }
    let last = slice_chars(&parts[parts.len() - 1], 0, parts[parts.len() - 1].len());
    assert(last@ =~= split_on(line@, '(').last());
    if last.len() > 0 && last[last.len() - 1] == ')' {
        let inner = slice_chars(&last, 0, last.len() - 1);
        assert(inner@ =~= last@.drop_last());
        Some(string_of(&inner))
    } else {
        None
    }
}

/// A status line of the dependency sync that moves its progress.
pub open spec fn is_status_line(line: Seq<char>) -> bool {
    starts_with(line, "Resolved "@) || starts_with(line, "Downloading "@) || starts_with(
        line,
        "Downloaded "@,
    ) || starts_with(line, "Prepared "@) || starts_with(line, "Installed "@) || starts_with(
        line,
        "Audited "@,
    ) || starts_with(line, "+ "@)
}

/// A line the dependency sync prints on its error stream that is not an error.
pub open spec fn uv_progress_line(line: Seq<char>) -> bool {
    starts_with(line, "Resolved "@) || starts_with(line, "Downloading "@) || starts_with(
        line,
        "Downloaded "@,
    ) || starts_with(line, "Prepared "@) || starts_with(line, "Installed "@) || starts_with(
        line,
        "Audited "@,
    ) || starts_with(line, "warning: "@) || starts_with(line, "hint: "@) || starts_with(
        line,
        "note: "@,
    )
}

/// Whether a line of the sync's error stream is progress rather than an error.
pub fn is_uv_progress_line(line: &str) -> (b: bool)
    ensures
        b == uv_progress_line(line@),
{
    let v = chars_of(line);
    starts_with_str(&v, "Resolved ") || starts_with_str(&v, "Downloading ") || starts_with_str(
        &v,
        "Downloaded ",
    ) || starts_with_str(&v, "Prepared ") || starts_with_str(&v, "Installed ")
        || starts_with_str(&v, "Audited ") || starts_with_str(&v, "warning: ")
        || starts_with_str(&v, "hint: ") || starts_with_str(&v, "note: ")
}

fn is_status_line_exec(v: &Vec<char>) -> (b: bool)
    ensures
        b == is_status_line(v@),
{
    starts_with_str(v, "Resolved ") || starts_with_str(v, "Downloading ") || starts_with_str(
        v,
        "Downloaded ",
    ) || starts_with_str(v, "Prepared ") || starts_with_str(v, "Installed ") || starts_with_str(
        v,
        "Audited ",
    ) || starts_with_str(v, "+ ")
}

pub const NANOS_PER_SEC: u64 = 1_000_000_000;

/// Whole seconds from `since` to `now` (none when `now` is earlier), both
/// in nanoseconds on one monotonic clock.
pub open spec fn elapsed_secs(now: u64, since: u64) -> u64 {
    if now >= since {
        ((now - since) / (NANOS_PER_SEC as int)) as u64
    } else {
        0
    }
}

fn elapsed_secs_exec(now: u64, since: u64) -> (r: u64)
    ensures
        r == elapsed_secs(now, since),
{
    if now >= since {
        (now - since) / NANOS_PER_SEC
    } else {
        0
    }
}

/// The dependency sync's state as its lines have told it.
pub struct UvModel {
    pub started_at: u64,
    pub download_started_at: Option<u64>,
    pub sizes: Seq<(Seq<char>, u64)>,
    pub downloaded: Seq<Seq<char>>,
    pub downloaded_bytes: u64,
    pub resolved: bool,
    pub prepared: bool,
    pub installed: bool,
    pub last_progress: u8,
}

/// The size first recorded for a package.
pub open spec fn size_of(sizes: Seq<(Seq<char>, u64)>, name: Seq<char>) -> Option<u64>
    decreases sizes.len(),
{
    if sizes.len() == 0 {
        None
    } else if sizes[0].0 == name {
        Some(sizes[0].1)
    } else {
        size_of(sizes.drop_first(), name)
    }
}

pub open spec fn sat_add(a: u64, b: u64) -> u64 {
    if a + b > u64::MAX {
        u64::MAX
    } else {
        (a + b) as u64
    }
}

/// The state once the sync has printed `line` at time `now`; `size` is the
/// download size the line gives, read by the caller.
pub open spec fn observed(m: UvModel, line: Seq<char>, now: u64, size: Option<u64>) -> UvModel {
    if starts_with(line, "Resolved "@) {
        UvModel { resolved: true, ..m }
    } else if starts_with(line, "Downloading "@) {
        let started = match m.download_started_at {
            Some(t) => Some(t),
            None => Some(now),
        };
        let sizes = match (downloading_package(line), size) {
            (Some(p), Some(z)) => if size_of(m.sizes, p) is None {
                m.sizes.push((p, z))
            } else {
                m.sizes
            },
            _ => m.sizes,
        };
        UvModel { download_started_at: started, sizes, ..m }
    } else if starts_with(line, "Downloaded "@) {
        match downloaded_package(line) {
            Some(p) => if !m.downloaded.contains(p) {
                UvModel {
                    downloaded: m.downloaded.push(p),
                    downloaded_bytes: sat_add(
                        m.downloaded_bytes,
                        match size_of(m.sizes, p) {
                            Some(z) => z,
                            None => 0,
                        },
                    ),
                    ..m
                }
            } else {
                m
            },
            None => m,
        }
    } else if starts_with(line, "Prepared "@) {
        UvModel { prepared: true, ..m }
    } else if starts_with(line, "Installed "@) || starts_with(line, "Audited "@) {
        UvModel { installed: true, ..m }
    } else {
        m
    }
}

/// The sync's progress at time `now`, before it is kept from going back:
/// 98 once installed, 92 once prepared; while downloading, the larger of
/// 28 plus a point per four seconds (up to 60) and 28 plus two points per
/// finished package (up to 30 packages), at most 88; 22 once resolved;
/// before that 2 plus a point per ten seconds, up to 18.
pub open spec fn raw_progress(m: UvModel, now: u64) -> u8 {
    if m.installed {
        98
    } else if m.prepared {
        92
    } else if m.download_started_at is Some {
        let e = elapsed_secs(now, m.download_started_at->0) / 4;
        let ep = 28 + if e <= 60 {
            e as int
        } else {
            60
        };
        let n = m.downloaded.len();
        let pp = 28 + 2 * if n <= 30 {
            n as int
        } else {
            30
        };
        let best = if ep >= pp {
            ep
        } else {
            pp
        };
        (if best <= 88 {
            best
        } else {
            88
        }) as u8
    } else if m.resolved {
        22
    } else {
        let e = elapsed_secs(now, m.started_at) / 10;
        (2 + if e <= 18 {
            e as int
        } else {
            18
        }) as u8
    }
}

/// What the sync's own bar says, for the caller to put into words.
#[derive(Debug, Clone, Copy, PartialEq, Eq, Structural)]
pub enum UvDetail {
    /// Packages are being installed.
    Installing,
    /// Dependencies are being resolved, for this many seconds.
    Resolving { secs: u64 },
    /// Downloads have started, nothing has finished yet.
    WaitingForSpeed,
    /// This many bytes have arrived over this many nanoseconds.
    Downloading { bytes: u64, elapsed_nanos: u64 },
}

pub open spec fn detail_of(m: UvModel, now: u64) -> UvDetail {
    if m.installed || m.prepared {
        UvDetail::Installing
    } else {
        match m.download_started_at {
            None => UvDetail::Resolving { secs: elapsed_secs(now, m.started_at) },
            Some(t) => if m.downloaded_bytes == 0 {
                UvDetail::WaitingForSpeed
            } else {
                UvDetail::Downloading {
                    bytes: m.downloaded_bytes,
                    elapsed_nanos: if now >= t {
                        (now - t) as u64
                    } else {
                        0
                    },
                }
            },
        }
    }
}

/// The dependency sync's progress, as its status lines tell it.
pub struct UvProgressState {
    started_at: u64,
    pub download_started_at: Option<u64>,
    package_sizes: Vec<(String, u64)>,
    downloaded_packages: Vec<String>,
    pub downloaded_bytes: u64,
    resolved: bool,
    prepared: bool,
    installed: bool,
    last_progress: u8,
}

impl UvProgressState {
    pub closed spec fn model(&self) -> UvModel {
        UvModel {
            started_at: self.started_at,
            download_started_at: self.download_started_at,
            sizes: self.package_sizes@.map_values(|e: (String, u64)| (e.0@, e.1)),
            downloaded: self.downloaded_packages@.map_values(|s: String| s@),
            downloaded_bytes: self.downloaded_bytes,
            resolved: self.resolved,
            prepared: self.prepared,
            installed: self.installed,
            last_progress: self.last_progress,
        }
    }

    /// No package is counted twice, and the progress reported so far lies
    /// between 2 and 98.
    pub closed spec fn wf(&self) -> bool {
        &&& self.model().downloaded.no_duplicates()
        &&& 2 <= self.last_progress <= 98
    }

    /// A sync that started at time `now` (nanoseconds on the caller's
    /// monotonic clock).
    pub fn new(now: u64) -> (r: Self)
        ensures
            r.wf(),
            r.model() == (UvModel {
                started_at: now,
                download_started_at: None,
                sizes: Seq::empty(),
                downloaded: Seq::empty(),
                downloaded_bytes: 0,
                resolved: false,
                prepared: false,
                installed: false,
                last_progress: 2,
            }),
    {
        let r = UvProgressState {
            started_at: now,
            download_started_at: None,
            package_sizes: Vec::new(),
            downloaded_packages: Vec::new(),
            downloaded_bytes: 0,
            resolved: false,
            prepared: false,
            installed: false,
            last_progress: 2,
        };
        assert(r.model().sizes =~= Seq::empty());
        assert(r.model().downloaded =~= Seq::empty());
        r
    }

    fn recorded_size(&self, name: &String) -> (r: Option<u64>)
        ensures
            r == size_of(self.model().sizes, name@),
    {
        let ghost sizes = self.model().sizes;
        let mut i: usize = 0;
        assert(sizes.skip(0) =~= sizes);
        while i < self.package_sizes.len()
            invariant
                i <= self.package_sizes.len(),
                sizes == self.model().sizes,
                size_of(sizes, name@) == size_of(sizes.skip(i as int), name@),
            decreases self.package_sizes.len() - i,
        {
            let ghost rest = sizes.skip(i as int);
            assert(rest.drop_first() =~= sizes.skip(i + 1));
            assert(rest[0] == (self.package_sizes@[i as int].0@, self.package_sizes@[i as int].1));
            if self.package_sizes[i].0 == *name {
                return Some(self.package_sizes[i].1);
            }
            i = i + 1;
        }
        assert(sizes.skip(i as int) =~= Seq::<(Seq<char>, u64)>::empty());
        None
    }

    fn is_downloaded(&self, name: &String) -> (r: bool)
        ensures
            r == self.model().downloaded.contains(name@),
    {
        let ghost d = self.model().downloaded;
        let mut i: usize = 0;
        while i < self.downloaded_packages.len()
            invariant
                i <= self.downloaded_packages.len(),
                d == self.model().downloaded,
                forall|j: int| 0 <= j < i ==> d[j] != name@,
            decreases self.downloaded_packages.len() - i,
        {
            assert(d[i as int] == self.downloaded_packages@[i as int]@);
            if self.downloaded_packages[i] == *name {
                assert(d[i as int] == name@);
                return true;
            }
            i = i + 1;
        }
        false
    }

    /// Takes in one status line printed at time `now`; `size` is the size
    /// in bytes that a `Downloading` line gives, as the caller reads it.
    pub fn observe(&mut self, line: &str, now: u64, size: Option<u64>)
        requires
            old(self).wf(),
        ensures
            final(self).wf(),
            final(self).model() == observed(old(self).model(), line@, now, size),
            final(self).model().last_progress == old(self).model().last_progress,
    {
        let v = chars_of(line);
        if starts_with_str(&v, "Resolved ") {
            self.resolved = true;
            return;
        }
        if starts_with_str(&v, "Downloading ") {
            if self.download_started_at.is_none() {
                self.download_started_at = Some(now);
            }
            match (extract_uv_package_name(line), size) {
                (Some(p), Some(z)) => {
                    if self.recorded_size(&p).is_none() {
                        let ghost before = self.model().sizes;
                        self.package_sizes.push((p, z));
                        assert(self.model().sizes =~= before.push((p@, z)));
                    }
                },
                _ => {},
            }
            return;
        }
        if starts_with_str(&v, "Downloaded ") {
            match extract_uv_downloaded_package_name(line) {
                Some(p) => {
                    if !self.is_downloaded(&p) {
                        let add = match self.recorded_size(&p) {
                            Some(z) => z,
                            None => 0,
                        };
                        let ghost before = self.model().downloaded;
                        self.downloaded_packages.push(p);
                        assert(self.model().downloaded =~= before.push(p@));
                        self.downloaded_bytes = self.downloaded_bytes.saturating_add(add);
                    }
                },
                None => {},
            }
            return;
        }
        if starts_with_str(&v, "Prepared ") {
            self.prepared = true;
        } else if starts_with_str(&v, "Installed ") || starts_with_str(&v, "Audited ") {
            self.installed = true;
        }
    }

    /// The sync's progress at time `now`; it never goes back.
    pub fn progress(&mut self, now: u64) -> (r: u8)
        requires
            old(self).wf(),
        ensures
            final(self).wf(),
            r == max_u8(old(self).model().last_progress, raw_progress(old(self).model(), now)),
            final(self).model() == (UvModel { last_progress: r, ..old(self).model() }),
            2 <= r <= 98,
            old(self).model().last_progress <= r,
            old(self).model().installed ==> r == 98,
    {
        let p: u8 = if self.installed {
            98
        } else if self.prepared {
            92
        } else if let Some(t) = self.download_started_at {
            let e = elapsed_secs_exec(now, t) / 4;
            let ep: u8 = 28 + if e <= 60 {
                e as u8
            } else {
                60
            };
            let n = self.downloaded_packages.len();
            let pp: u8 = 28 + 2 * if n <= 30 {
                n as u8
            } else {
                30
            };
            let best = if ep >= pp {
                ep
            } else {
                pp
            };
            if best <= 88 {
                best
            } else {
                88
            }
        } else if self.resolved {
            22
        } else {
            let e = elapsed_secs_exec(now, self.started_at) / 10;
            2 + if e <= 18 {
                e as u8
            } else {
                18
            }
        };
        if p > self.last_progress {
            self.last_progress = p;
        }
        self.last_progress
    }

    /// What the sync's own bar says at time `now`.
    pub fn detail(&self, now: u64) -> (d: UvDetail)
        ensures
            d == detail_of(self.model(), now),
    {
        if self.installed || self.prepared {
            return UvDetail::Installing;
        }
        match self.download_started_at {
            None => UvDetail::Resolving { secs: elapsed_secs_exec(now, self.started_at) },
            Some(t) => if self.downloaded_bytes == 0 {
                UvDetail::WaitingForSpeed
            } else {
                UvDetail::Downloading {
                    bytes: self.downloaded_bytes,
                    elapsed_nanos: if now >= t {
                        now - t
                    } else {
                        0
                    },
                }
            },
        }
    }
}

proof fn lemma_size_of_push(sizes: Seq<(Seq<char>, u64)>, name: Seq<char>, z: u64)
    requires
        size_of(sizes, name) is None,
    ensures
        size_of(sizes.push((name, z)), name) == Some(z),
    decreases sizes.len(),
{
    if sizes.len() > 0 {
        assert(sizes.push((name, z)).drop_first() =~= sizes.drop_first().push((name, z)));
        lemma_size_of_push(sizes.drop_first(), name, z);
    }
}

/// A status line counts once: the sync printing the same line again, at
/// any later time, changes nothing (a finished download adds its bytes
/// once).
pub proof fn lemma_observe_same_line_once(m: UvModel, line: Seq<char>, t1: u64, t2: u64, size: Option<u64>)
    ensures
        observed(observed(m, line, t1, size), line, t2, size) == observed(m, line, t1, size),
{
    let m1 = observed(m, line, t1, size);
    if !starts_with(line, "Resolved "@) && starts_with(line, "Downloading "@) {
        match (downloading_package(line), size) {
            (Some(p), Some(z)) => {
                if size_of(m.sizes, p) is None {
                    lemma_size_of_push(m.sizes, p, z);
                }
            },
            _ => {},
        }
    } else if !starts_with(line, "Resolved "@) && !starts_with(line, "Downloading "@) && starts_with(line, "Downloaded "@) {
        match downloaded_package(line) {
            Some(p) => {
                if !m.downloaded.contains(p) {
                    assert(m1.downloaded[m.downloaded.len() as int] == p);
                }
            },
            None => {},
        }
    }
}

/// The state once the sync has printed each of `lines` in turn, each with
/// the time it came and the download size read from it.
pub open spec fn observed_all(m: UvModel, lines: Seq<(Seq<char>, u64, Option<u64>)>) -> UvModel
    decreases lines.len(),
{
    if lines.len() == 0 {
        m
    } else {
        let (line, now, size) = lines.last();
        observed(observed_all(m, lines.drop_last()), line, now, size)
    }
}

proof fn lemma_observed_all_keeps_last(m: UvModel, lines: Seq<(Seq<char>, u64, Option<u64>)>)
    ensures
        observed_all(m, lines).last_progress == m.last_progress,
    decreases lines.len(),
{
    if lines.len() > 0 {
        lemma_observed_all_keeps_last(m, lines.drop_last());
    }
}

/// The sync's progress never goes back and stays between 2 and 98: after a
/// report at `t1`, whatever lines come and whenever the next report is
/// made, it is at least the first; once the sync has installed, it is 98.
pub proof fn lemma_uv_progress_never_goes_back(
    m: UvModel,
    t1: u64,
    lines: Seq<(Seq<char>, u64, Option<u64>)>,
    t2: u64,
)
    requires
        2 <= m.last_progress <= 98,
    ensures
        ({
            let r1 = max_u8(m.last_progress, raw_progress(m, t1));
            let m2 = observed_all(UvModel { last_progress: r1, ..m }, lines);
            let r2 = max_u8(m2.last_progress, raw_progress(m2, t2));
            &&& 2 <= r1 <= r2 <= 98
            &&& m2.installed ==> r2 == 98
        }),
{
    let r1 = max_u8(m.last_progress, raw_progress(m, t1));
    lemma_observed_all_keeps_last(UvModel { last_progress: r1, ..m }, lines);
}

/// A call on a dependency sync's progress state: a status line taken in,
/// or the progress read, at time `now`.
pub enum UvEvent {
    Observe { line: Seq<char>, now: u64, size: Option<u64> },
    Read { now: u64 },
}

/// The progress values read over a run of calls, each with whether the
/// sync had installed by then.
pub open spec fn uv_reports(m: UvModel, events: Seq<UvEvent>) -> Seq<(u8, bool)>
    decreases events.len(),
{
    if events.len() == 0 {
        Seq::empty()
    } else {
        match events[0] {
            UvEvent::Observe { line, now, size } => uv_reports(observed(m, line, now, size), events.drop_first()),
            UvEvent::Read { now } => {
                let r = max_u8(m.last_progress, raw_progress(m, now));
                seq![(r, m.installed)] + uv_reports(UvModel { last_progress: r, ..m }, events.drop_first())
            },
        }
    }
}

/// Over the whole life of a dependency sync's progress state, whatever
/// lines it takes in and whenever it is read, the values read never go
/// back, stay between the last one reported and 98, and are 98 once the
/// sync has installed.
pub proof fn lemma_uv_progress_over_a_run(m: UvModel, events: Seq<UvEvent>)
    requires
        2 <= m.last_progress <= 98,
    ensures
        ({
            let r = uv_reports(m, events);
            &&& forall|i: int| 0 <= i < r.len() ==> m.last_progress <= (#[trigger] r[i]).0 <= 98
            &&& forall|i: int| 0 <= i < r.len() ==> (#[trigger] r[i]).1 ==> r[i].0 == 98
            &&& forall|i: int, j: int| 0 <= i <= j < r.len() ==> r[i].0 <= r[j].0
        }),
    decreases events.len(),
{
    if events.len() > 0 {
        let rest = events.drop_first();
        match events[0] {
            UvEvent::Observe { line, now, size } => {
                let m1 = observed(m, line, now, size);
                assert(m1.last_progress == m.last_progress);
                lemma_uv_progress_over_a_run(m1, rest);
                assert(uv_reports(m, events) == uv_reports(m1, rest));
            },
            UvEvent::Read { now } => {
                let v = max_u8(m.last_progress, raw_progress(m, now));
                let m1 = UvModel { last_progress: v, ..m };
                lemma_uv_progress_over_a_run(m1, rest);
                let tail = uv_reports(m1, rest);
                let r = uv_reports(m, events);
                assert(r == seq![(v, m.installed)] + tail);
                assert forall|i: int| 0 <= i < r.len() implies m.last_progress <= (#[trigger] r[i]).0 <= 98
                    && (r[i].1 ==> r[i].0 == 98) by {
                    if i > 0 {
                        assert(r[i] == tail[i - 1]);
                    }
                }
                assert forall|i: int, j: int| 0 <= i <= j < r.len() implies r[i].0 <= r[j].0 by {
                    if i > 0 {
                        assert(r[i] == tail[i - 1]);
                        assert(r[j] == tail[j - 1]);
                    } else if j > 0 {
                        assert(r[j] == tail[j - 1]);
                    }
                }
            },
        }
    }
}

/// The repository update's progress never goes back: a line that moves
/// the bar moves it to at least where it was.
pub proof fn lemma_git_progress_never_goes_back(line: Seq<char>, before: u8)
    ensures
        match git_output_update(line, before) {
            Some((p, _)) => p >= before,
            None => true,
        },
{
}

/// What a dependency sync line puts on the splash screen.
pub struct DependencySplash {
    /// Overall progress.
    pub progress: u8,
    /// The sync's own progress.
    pub uv_progress: u8,
    pub uv_detail: UvDetail,
}

/// Reads a (trimmed) line of the dependency sync printed at time `now`.
/// Status lines move the sync's progress; others leave it and give nothing.
pub fn splash_update_for_dependency_output(
    line: &str,
    uv_progress: &mut UvProgressState,
    now: u64,
    size: Option<u64>,
) -> (r: Option<DependencySplash>)
    requires
        old(uv_progress).wf(),
    ensures
        final(uv_progress).wf(),
        is_status_line(line@) ==> {
            let m = observed(old(uv_progress).model(), line@, now, size);
            let p = max_u8(m.last_progress, raw_progress(m, now));
            &&& final(uv_progress).model() == (UvModel { last_progress: p, ..m })
            &&& r matches Some(u)
            &&& u.uv_progress == p
            &&& u.progress == scaled(p, 64, 90)
            &&& u.uv_detail == detail_of(final(uv_progress).model(), now)
        },
        !is_status_line(line@) ==> r is None && *final(uv_progress) == *old(uv_progress),
{
    let v = chars_of(line);
    if !is_status_line_exec(&v) {
        return None;
    }
    uv_progress.observe(line, now, size);
    let p = uv_progress.progress(now);
    let global = dependency_global_progress(p);
    Some(DependencySplash { progress: global, uv_progress: p, uv_detail: uv_progress.detail(now) })
}

/// Which script a command runs.
#[derive(Debug, Clone, Copy, PartialEq, Eq, Structural)]
pub enum ScriptPhase {
    Git,
    Dependencies,
}

/// What one output line of a script puts on the splash screen.
pub enum OutputUpdate {
    Git(GitSplash),
    Dependencies(DependencySplash),
}

/// Most times a failed update is tried again.
pub const MAX_UPDATE_RETRIES: usize = 20;

/// After attempt `retry` (counting from 0) failed: the number of the retry
/// to announce, or `None` when the attempts are used up.
pub fn retry_after_failure(retry: usize) -> (r: Option<usize>)
    requires
        retry <= MAX_UPDATE_RETRIES,
    ensures
        r == (if retry == MAX_UPDATE_RETRIES {
            None
        } else {
            Some((retry + 1) as usize)
        }),
{
    if retry == MAX_UPDATE_RETRIES {
        None
    } else {
        Some(retry + 1)
    }
}

/// What a command's output and ticks mean for the splash screen and the
/// log, for as long as the command runs.
pub struct CommandMonitor {
    pub phase: ScriptPhase,
    pub last_err: String,
    pub git_progress: GitProgressState,
    pub uv_progress: UvProgressState,
    pub dependency_progress: u8,
    pub dependency_elapsed_secs: u16,
}

/// How to log a line of a command's output.
#[derive(Debug, Clone, Copy, PartialEq, Eq, Structural)]
pub enum LogLevel {
    Info,
    Warning,
}

/// What a wait without output shows while dependencies sync.
pub struct WaitSplash {
    pub progress: u8,
    /// Seconds waited; under ten the sync is still reading the project.
    pub elapsed_secs: u16,
    pub uv_progress: u8,
    pub uv_detail: UvDetail,
}

/// Something that happens while dependencies sync: a line printed at time
/// `now` (with the download size read from it), or a second without output.
pub enum DependencyEvent {
    Line { line: Seq<char>, now: u64, size: Option<u64> },
    Wait { now: u64 },
}

/// One event of a dependency sync, from the overall progress `dp` and the
/// sync's state `m`: the new overall progress, the new state, and the
/// overall progress shown on the splash screen, if any.
pub open spec fn dependency_step(dp: u8, m: UvModel, e: DependencyEvent) -> (u8, UvModel, Option<u8>) {
    match e {
        DependencyEvent::Line { line, now, size } => {
            let t = trim(line);
            if t.len() > 0 && is_status_line(t) {
                let m1 = observed(m, t, now, size);
                let p = max_u8(m1.last_progress, raw_progress(m1, now));
                let q = max_u8(dp, scaled(p, 64, 90));
                (q, UvModel { last_progress: p, ..m1 }, Some(q))
            } else {
                (dp, m, None)
            }
        },
        DependencyEvent::Wait { now } => {
            let uv = max_u8(m.last_progress, raw_progress(m, now));
            let q = min_u8(max_u8(dp, scaled(uv, 64, 90)), 100);
            (q, UvModel { last_progress: uv, ..m }, Some(q))
        },
    }
}

/// The overall progress values a dependency sync shows, in order, over a
/// run of events.
pub open spec fn dependency_reports(dp: u8, m: UvModel, events: Seq<DependencyEvent>) -> Seq<u8>
    decreases events.len(),
{
    if events.len() == 0 {
        Seq::empty()
    } else {
        let s = dependency_step(dp, m, events[0]);
        let rest = dependency_reports(s.0, s.1, events.drop_first());
        match s.2 {
            Some(q) => seq![q] + rest,
            None => rest,
        }
    }
}

/// Over a whole dependency sync the splash screen's overall progress
/// never goes back and stays between where it started (64 for a new
/// monitor) and 100.
pub proof fn lemma_dependency_progress_never_goes_back(dp: u8, m: UvModel, events: Seq<DependencyEvent>)
    requires
        64 <= dp <= 100,
    ensures
        ({
            let r = dependency_reports(dp, m, events);
            &&& forall|i: int| 0 <= i < r.len() ==> dp <= #[trigger] r[i] <= 100
            &&& forall|i: int, j: int| 0 <= i <= j < r.len() ==> r[i] <= r[j]
        }),
    decreases events.len(),
{
    if events.len() > 0 {
        let s = dependency_step(dp, m, events[0]);
        assert(dp <= s.0 <= 100) by {
            match events[0] {
                DependencyEvent::Line { line, now, size } => {
                    let t = trim(line);
                    if t.len() > 0 && is_status_line(t) {
                        let m1 = observed(m, t, now, size);
                        let p = max_u8(m1.last_progress, raw_progress(m1, now));
                        lemma_scaled_bound(p);
                    }
                },
                DependencyEvent::Wait { now } => {},
            }
        }
        lemma_dependency_progress_never_goes_back(s.0, s.1, events.drop_first());
        let rest = dependency_reports(s.0, s.1, events.drop_first());
        let r = dependency_reports(dp, m, events);
        match s.2 {
            Some(q) => {
                assert(q == s.0);
                assert(r == seq![q] + rest);
                assert forall|i: int, j: int| 0 <= i <= j < r.len() implies r[i] <= r[j] by {
                    if i > 0 {
                        assert(r[i] == rest[i - 1]);
                        assert(r[j] == rest[j - 1]);
                    } else if j > 0 {
                        assert(r[j] == rest[j - 1]);
                    }
                }
                assert forall|i: int| 0 <= i < r.len() implies dp <= #[trigger] r[i] <= 100 by {
                    if i > 0 {
                        assert(r[i] == rest[i - 1]);
                    }
                }
            },
            None => {},
        }
    }
}

proof fn lemma_scaled_bound(p: u8)
    ensures
        64 <= scaled(p, 64, 90) <= 90,
{
    let q: int = if p <= 100 {
        p as int
    } else {
        100
    };
    assert(0 <= q * 26 <= 2600) by (nonlinear_arith)
        requires
            0 <= q <= 100,
    ;
    assert(0 <= (q * 26) / 100 <= 26);
}

impl CommandMonitor {
    pub closed spec fn wf(&self) -> bool {
        self.uv_progress.wf()
    }

    /// A monitor for a command of `phase` started at time `now`.
    pub fn new(phase: ScriptPhase, now: u64) -> (r: Self)
        ensures
            r.wf(),
            r.phase == phase,
            r.last_err@.len() == 0,
            r.dependency_progress == 64,
            r.dependency_elapsed_secs == 0,
            r.git_progress.progress == 0,
    {
        CommandMonitor {
            phase,
            last_err: String::new(),
            git_progress: GitProgressState::new(),
            uv_progress: UvProgressState::new(now),
            dependency_progress: 64,
            dependency_elapsed_secs: 0,
        }
    }

    /// Takes in a line the command printed at time `now` (`is_err` when on
    /// its error stream). While dependencies sync, the overall progress
    /// never goes back. An error-stream line is remembered as the last
    /// error, unless it is the sync's own progress.
    pub fn on_line(&mut self, is_err: bool, line: &str, now: u64, size: Option<u64>) -> (r: (
        Option<OutputUpdate>,
        LogLevel,
    ))
        requires
            old(self).wf(),
        ensures
            final(self).wf(),
            final(self).phase == old(self).phase,
            r.1 == (if is_err && !(old(self).phase == ScriptPhase::Dependencies
                && uv_progress_line(line@)) {
                LogLevel::Warning
            } else {
                LogLevel::Info
            }),
            final(self).last_err@ == (if r.1 == LogLevel::Warning {
                line@
            } else {
                old(self).last_err@
            }),
            old(self).phase == ScriptPhase::Dependencies ==> final(self).dependency_progress
                >= old(self).dependency_progress,
            final(self).dependency_elapsed_secs == old(self).dependency_elapsed_secs,
            match r.0 {
                Some(OutputUpdate::Dependencies(u)) => u.progress == final(self).dependency_progress
                    && u.progress >= old(self).dependency_progress,
                _ => final(self).dependency_progress == old(self).dependency_progress,
            },
            trim(line@).len() == 0 ==> r.0 is None && final(self).git_progress == old(self).git_progress
                && final(self).uv_progress == old(self).uv_progress,
            old(self).phase == ScriptPhase::Git ==> final(self).uv_progress == old(self).uv_progress,
            old(self).phase == ScriptPhase::Dependencies ==> final(self).git_progress == old(self).git_progress,
            old(self).phase == ScriptPhase::Git && trim(line@).len() > 0 ==> match git_output_update(
                trim(line@),
                old(self).git_progress.progress,
            ) {
                Some((p, d)) => (r.0 matches Some(OutputUpdate::Git(u)) && u.progress == min_u8(p, 100)
                    && u.detail@ == d) && final(self).git_progress.progress == p,
                None => r.0 is None && final(self).git_progress.progress == old(self).git_progress.progress,
            },
            old(self).phase == ScriptPhase::Dependencies && trim(line@).len() > 0 ==> {
                let t = trim(line@);
                &&& is_status_line(t) ==> {
                    let m = observed(old(self).uv_progress.model(), t, now, size);
                    let p = max_u8(m.last_progress, raw_progress(m, now));
                    &&& final(self).uv_progress.model() == (UvModel { last_progress: p, ..m })
                    &&& r.0 matches Some(OutputUpdate::Dependencies(u))
                    &&& u.uv_progress == p
                    &&& u.progress == max_u8(old(self).dependency_progress, scaled(p, 64, 90))
                    &&& u.uv_detail == detail_of(final(self).uv_progress.model(), now)
                }
                &&& !is_status_line(t) ==> r.0 is None && final(self).uv_progress == old(self).uv_progress
            },
            old(self).phase == ScriptPhase::Dependencies ==> {
                let s = dependency_step(
                    old(self).dependency_progress,
                    old(self).uv_progress.model(),
                    DependencyEvent::Line { line: line@, now, size },
                );
                &&& final(self).dependency_progress == s.0
                &&& final(self).uv_progress.model() == s.1
                &&& s.2 == (match r.0 {
                    Some(OutputUpdate::Dependencies(u)) => Some(u.progress),
                    _ => None,
                })
            },
    {
        let update = splash_update_for_output(line, self.phase, &mut self.git_progress, &mut self.uv_progress, now, size);
        let update = match update {
            Some(OutputUpdate::Dependencies(mut u)) => {
                if self.phase == ScriptPhase::Dependencies {
                    if u.progress < self.dependency_progress {
                        u.progress = self.dependency_progress;
                    }
                    self.dependency_progress = u.progress;
                }
                Some(OutputUpdate::Dependencies(u))
            },
            other => other,
        };
        let level = if is_err {
            if self.phase == ScriptPhase::Dependencies && is_uv_progress_line(line) {
                LogLevel::Info
            } else {
                self.last_err = String::from_str(line);
                LogLevel::Warning
            }
        } else {
            LogLevel::Info
        };
        (update, level)
    }

    /// A second passed without output at time `now`: while dependencies
    /// sync, the splash screen shows the wait, never going back.
    pub fn on_wait(&mut self, now: u64) -> (r: Option<WaitSplash>)
        requires
            old(self).wf(),
        ensures
            final(self).wf(),
            final(self).phase == old(self).phase,
            final(self).last_err == old(self).last_err,
            old(self).phase == ScriptPhase::Dependencies ==> {
                &&& r matches Some(w)
                &&& w.elapsed_secs == final(self).dependency_elapsed_secs
                &&& final(self).dependency_elapsed_secs == (if old(self).dependency_elapsed_secs
                    == u16::MAX {
                    u16::MAX
                } else {
                    (old(self).dependency_elapsed_secs + 1) as u16
                })
                &&& w.progress == final(self).dependency_progress
                &&& w.progress == min_u8(
                    max_u8(old(self).dependency_progress, scaled(w.uv_progress, 64, 90)),
                    100,
                )
                &&& w.uv_progress == max_u8(
                    old(self).uv_progress.model().last_progress,
                    raw_progress(old(self).uv_progress.model(), now),
                )
                &&& final(self).uv_progress.model() == (UvModel {
                    last_progress: w.uv_progress,
                    ..old(self).uv_progress.model()
                })
                &&& w.uv_detail == detail_of(final(self).uv_progress.model(), now)
                &&& final(self).git_progress == old(self).git_progress
            },
            old(self).phase == ScriptPhase::Git ==> r is None && *final(self) == *old(self),
            old(self).phase == ScriptPhase::Dependencies ==> {
                let s = dependency_step(
                    old(self).dependency_progress,
                    old(self).uv_progress.model(),
                    DependencyEvent::Wait { now },
                );
                &&& final(self).dependency_progress == s.0
                &&& final(self).uv_progress.model() == s.1
                &&& r matches Some(w)
                &&& s.2 == Some(w.progress)
            },
    {
        if self.phase != ScriptPhase::Dependencies {
            return None;
        }
        self.dependency_elapsed_secs = self.dependency_elapsed_secs.saturating_add(1);
        let uv = self.uv_progress.progress(now);
        let global = dependency_global_progress(uv);
        let p = if self.dependency_progress >= global {
            self.dependency_progress
        } else {
            global
        };
        let p = if p <= 100 {
            p
        } else {
            100
        };
        self.dependency_progress = p;
        Some(
            WaitSplash {
                progress: p,
                elapsed_secs: self.dependency_elapsed_secs,
                uv_progress: uv,
                uv_detail: self.uv_progress.detail(now),
            },
        )
    }

    /// The command exited: fine when it succeeded, else the last error it
    /// printed (`Err(None)` when it printed none).
    pub fn on_exit(&self, success: bool) -> (r: Result<(), Option<String>>)
        ensures
            success ==> r is Ok,
            !success && self.last_err@.len() > 0 ==> (r matches Err(Some(e)) && e@ == self.last_err@),
            !success && self.last_err@.len() == 0 ==> r matches Err(None),
    {
        if success {
            Ok(())
        } else if self.last_err.as_str().is_empty() {
            Err(None)
        } else {
            Err(Some(self.last_err.clone()))
        }
    }
}

/// Reads a line of a script's output; blank lines tell nothing.
pub fn splash_update_for_output(
    line: &str,
    phase: ScriptPhase,
    git_progress: &mut GitProgressState,
    uv_progress: &mut UvProgressState,
    now: u64,
    size: Option<u64>,
) -> (r: Option<OutputUpdate>)
    requires
        old(uv_progress).wf(),
    ensures
        final(uv_progress).wf(),
        trim(line@).len() == 0 ==> r is None && *final(git_progress) == *old(git_progress) && *final(uv_progress) == *old(uv_progress),
        phase == ScriptPhase::Git ==> *final(uv_progress) == *old(uv_progress) && (r is None || (r matches Some(OutputUpdate::Git(_)))),
        phase == ScriptPhase::Dependencies ==> *final(git_progress) == *old(git_progress) && (r is None || (r matches Some(OutputUpdate::Dependencies(_)))),
        phase == ScriptPhase::Git && trim(line@).len() > 0 ==> match git_output_update(trim(line@), old(git_progress).progress) {
            Some((p, d)) => (r matches Some(OutputUpdate::Git(u)) && u.progress == min_u8(p, 100) && u.detail@ == d) && final(git_progress).progress == p,
            None => r is None && final(git_progress).progress == old(git_progress).progress,
        },
        phase == ScriptPhase::Dependencies && trim(line@).len() > 0 ==> {
            let t = trim(line@);
            &&& is_status_line(t) ==> {
                let m = observed(old(uv_progress).model(), t, now, size);
                let p = max_u8(m.last_progress, raw_progress(m, now));
                &&& final(uv_progress).model() == (UvModel { last_progress: p, ..m })
                &&& r matches Some(OutputUpdate::Dependencies(u))
                &&& u.uv_progress == p
                &&& u.progress == scaled(p, 64, 90)
                &&& u.uv_detail == detail_of(final(uv_progress).model(), now)
            }
            &&& !is_status_line(t) ==> r is None && *final(uv_progress) == *old(uv_progress)
        },
{
    let v = chars_of(line);
    let t = trim_chars(&v);
    if t.len() == 0 {
        return None;
    }
    let ts = string_of(&t);
    match phase {
        ScriptPhase::Git => match splash_update_for_git_output(ts.as_str(), git_progress) {
            Some(u) => Some(OutputUpdate::Git(u)),
            None => None,
        },
        ScriptPhase::Dependencies => match splash_update_for_dependency_output(
            ts.as_str(),
            uv_progress,
            now,
            size,
        ) {
            Some(u) => Some(OutputUpdate::Dependencies(u)),
            None => None,
        },
    }
}

/// Splits a script's output stream into lines as it arrives, byte by byte:
/// control and non-ASCII bytes end a line, and a progress line that repeats
/// its label after a colon is cut before the repetition.
pub struct LineSplitter {
    buffer: Vec<char>,
}

/// Bytes that make up lines: printable ASCII and DEL.
pub open spec fn is_line_byte(b: u8) -> bool {
    32 <= b && b <= 127
}

/// The lines one byte completes, and the text held after it.
pub open spec fn split_step(buf: Seq<char>, b: u8) -> (Seq<Seq<char>>, Seq<char>) {
    if !is_line_byte(b) {
        if buf.len() > 0 {
            (seq![buf], Seq::empty())
        } else {
            (Seq::empty(), Seq::empty())
        }
    } else if b == 58 {
        match find_from(buf, seq![':'], 0) {
            Some(i) => {
                let l = buf.take(i);
                let r = buf.skip(i + 1);
                if ends_with(r, l) {
                    let cut = (r.len() + 1) as int;
                    (seq![buf.take(cut)], buf.skip(cut).push(':'))
                } else {
                    (Seq::empty(), buf.push(':'))
                }
            },
            None => (Seq::empty(), buf.push(':')),
        }
    } else {
        (Seq::empty(), buf.push(b as char))
    }
}

/// The characters of some lines, one after another.
pub open spec fn flatten(ls: Seq<Seq<char>>) -> Seq<char>
    decreases ls.len(),
{
    if ls.len() == 0 {
        Seq::empty()
    } else {
        flatten(ls.drop_last()) + ls.last()
    }
}

pub proof fn lemma_flatten_single(x: Seq<char>)
    ensures
        flatten(seq![x]) == x,
{
    assert(seq![x].drop_last() =~= Seq::<Seq<char>>::empty());
    assert(seq![x].last() == x);
    assert(flatten(Seq::<Seq<char>>::empty()) + x =~= x);
}

/// No text is lost or added: what a byte completes and what is held after
/// it make up what was held before, followed by the byte when it belongs to
/// a line.
pub proof fn lemma_split_step_keeps_text(buf: Seq<char>, b: u8)
    ensures
        flatten(split_step(buf, b).0) + split_step(buf, b).1 == buf + (if is_line_byte(b) {
            seq![b as char]
        } else {
            Seq::empty()
        }),
{
    let (ls, rest) = split_step(buf, b);
    if !is_line_byte(b) {
        if buf.len() > 0 {
            assert(seq![buf].drop_last() =~= Seq::<Seq<char>>::empty());
            lemma_flatten_single(buf);
        }
        assert(flatten(ls) + rest =~= buf);
    } else if b == 58 {
        assert((58u8 as char) == ':');
        match find_from(buf, seq![':'], 0) {
            Some(i) => {
                lemma_find_from_bounds(buf, seq![':'], 0);
                let l = buf.take(i);
                let r = buf.skip(i + 1);
                if ends_with(r, l) {
                    let cut = (r.len() + 1) as int;
                    assert(cut <= buf.len());
                    assert(seq![buf.take(cut)].drop_last() =~= Seq::<Seq<char>>::empty());
                    lemma_flatten_single(buf.take(cut));
                    assert(flatten(ls) + rest =~= buf.push(':'));
                } else {
                    assert(flatten(ls) + rest =~= buf.push(':'));
                }
            },
            None => {
                assert(flatten(ls) + rest =~= buf.push(':'));
            },
        }
    } else {
        assert(flatten(ls) + rest =~= buf.push(b as char));
    }
}

pub proof fn lemma_find_from_bounds(s: Seq<char>, p: Seq<char>, i: int)
    ensures
        find_from(s, p, i) matches Some(k) ==> i <= k && occurs_at(s, p, k) && k + p.len() <= s.len(),
    decreases s.len() - i,
{
    if i >= 0 && i + p.len() <= s.len() && p.len() > 0 && !occurs_at(s, p, i) {
        lemma_find_from_bounds(s, p, i + 1);
    }
    if p.len() == 0 && 0 <= i <= s.len() {
        assert(s.subrange(i, i) =~= p);
    }
}

fn char_of_byte(b: u8) -> (c: char)
    ensures
        c == b as char,
{
    b as char
}

impl LineSplitter {
    pub closed spec fn held(&self) -> Seq<char> {
        self.buffer@
    }

    pub fn new() -> (r: Self)
        ensures
            r.held().len() == 0,
    {
        LineSplitter { buffer: Vec::new() }
    }

    /// Takes in one byte; returns the lines it completes.
    pub fn feed(&mut self, b: u8) -> (lines: Vec<String>)
        ensures
            (seqs_of_strings(lines@), final(self).held()) == split_step(old(self).held(), b),
    {
        if b < 32 || b > 127 {
            let mut lines: Vec<String> = Vec::new();
            if self.buffer.len() > 0 {
                lines.push(string_of(&self.buffer));
                self.buffer = Vec::new();
            }
            assert(seqs_of_strings(lines@) =~= split_step(old(self).held(), b).0);
            return lines;
        }
        let mut lines: Vec<String> = Vec::new();
        if b == 58 {
            proof {
                assert((58u8 as char) == ':');
                reveal_strlit(":");
            }
            match before_first_exec(&self.buffer, ":") {
                Some(l) => {
                    proof {
                        reveal_strlit(":");
                        assert(":"@ =~= seq![':']);
                        lemma_find_from_bounds(self.buffer@, ":"@, 0);
                    }
                    assert(l@.len() + 1 <= self.buffer@.len());
                    let i = l.len();
                    assert(i + 1 <= self.buffer.len());
                    let j: usize = i + 1;
                    let r = slice_chars(&self.buffer, j, self.buffer.len());
                    let mut ends = r.len() >= l.len();
                    if ends {
                        let tail = slice_chars(&r, r.len() - l.len(), r.len());
                        ends = crate::text::chars_eq(&tail, &l);
                        assert(tail@ =~= r@.skip(r@.len() - l@.len()));
                    }
                    if ends {
                        let cut: usize = r.len() + 1;
                        let head = slice_chars(&self.buffer, 0, cut);
                        let rest = slice_chars(&self.buffer, cut, self.buffer.len());
                        lines.push(string_of(&head));
                        self.buffer = rest;
                    }
                },
                None => {
                    assert(":"@ =~= seq![':']);
                },
            }
            self.buffer.push(':');
        } else {
            self.buffer.push(char_of_byte(b));
        }
        assert(seqs_of_strings(lines@) =~= split_step(old(self).held(), b).0);
        assert(self.buffer@ =~= split_step(old(self).held(), b).1);
        lines
    }

    /// The end of the stream: the line still held, if any.
    pub fn finish(self) -> (r: Option<String>)
        ensures
            match r {
                Some(s) => self.held().len() > 0 && s@ == self.held(),
                None => self.held().len() == 0,
            },
    {
        if self.buffer.len() > 0 {
            Some(string_of(&self.buffer))
        } else {
            None
        }
    }
}

pub open spec fn seqs_of_strings(v: Seq<String>) -> Seq<Seq<char>> {
    v.map_values(|s: String| s@)
}

/// Seconds waited and progress shown while a runtime tool installs: ten
/// ticks make a second; the progress moves from `start` to `end` over two
/// minutes.
pub fn runtime_wait_progress(elapsed_ticks: u16, start: u8, end: u8) -> (r: (u8, u16))
    requires
        start <= end,
    ensures
        r.1 == elapsed_ticks / 10,
        r.0 == scaled(
            (if elapsed_ticks / 10 <= 120 {
                elapsed_ticks / 10
            } else {
                120
            }) as u8,
            start,
            end,
        ),
{
    let secs = elapsed_ticks / 10;
    let capped = if secs <= 120 {
        secs
    } else {
        120
    };
    (scale_progress(capped as u8, start, end), secs)
}

/// Whether a tick of a long install updates the splash screen: the first,
/// then every tenth.
pub fn should_report_wait_tick(elapsed_ticks: u16) -> (b: bool)
    ensures
        b == (elapsed_ticks == 1 || elapsed_ticks % 10 == 0),
{
    elapsed_ticks == 1 || elapsed_ticks % 10 == 0
}

/// How many loading tips there are.
pub const TIPS_COUNT: usize = 19;

/// The tip shown at a given UNIX time.
pub fn tip_index(timestamp: i64) -> (i: usize)
    ensures
        i < TIPS_COUNT,
        i == (timestamp as usize) % TIPS_COUNT,
{
    (timestamp as usize) % TIPS_COUNT
}

/// The message key of a loading tip.
pub open spec fn tip_key(i: nat) -> Seq<char> {
    "tips."@ + decimal(i)
}

/// The message key of the tip shown at UNIX time `timestamp`: `tips.` and
/// the tip's number. The caller reads the clock.
pub fn get_tip(timestamp: i64) -> (key: String)
    ensures
        key@ == tip_key(((timestamp as usize) % TIPS_COUNT) as nat),
{
    let i = tip_index(timestamp);
    let mut key = String::from_str("tips.");
    push_str(&mut key, decimal_string(i as u64).as_str());
    key
}

proof fn lemma_prefixes_agree_at(t: Seq<char>, a: Seq<char>, b: Seq<char>, k: int)
    requires
        starts_with(t, a),
        starts_with(t, b),
        0 <= k < a.len(),
        k < b.len(),
    ensures
        a[k] == b[k],
{
    assert(t.take(a.len() as int)[k] == t[k]);
    assert(t.take(b.len() as int)[k] == t[k]);
}

/// What each of uv's status lines tells: `Installed ...` and `Audited ...`
/// (everything already in place) mean the sync has installed, so the next
/// progress read is 98 and the detail says it is installing;
/// `Prepared ...` moves it to at least 92 and installing; `Resolved ...`
/// marks the dependencies resolved; `Downloading ...` starts the download
/// clock. No line undoes what an earlier one told.
pub proof fn lemma_uv_status_lines(m: UvModel, line: Seq<char>, now: u64, size: Option<u64>, t: u64)
    requires
        m.last_progress <= 98,
    ensures
        ({
            let o = observed(m, line, now, size);
            &&& (starts_with(line, "Installed "@) || starts_with(line, "Audited "@)) ==> o.installed
                && max_u8(o.last_progress, raw_progress(o, t)) == 98 && detail_of(o, t)
                == UvDetail::Installing
            &&& starts_with(line, "Prepared "@) ==> o.prepared && max_u8(o.last_progress, raw_progress(o, t))
                >= 92 && detail_of(o, t) == UvDetail::Installing
            &&& starts_with(line, "Resolved "@) ==> o.resolved
            &&& starts_with(line, "Downloading "@) ==> o.download_started_at is Some
            &&& m.installed ==> o.installed
            &&& m.prepared ==> o.prepared
            &&& m.resolved ==> o.resolved
            &&& m.download_started_at is Some ==> o.download_started_at == m.download_started_at
            &&& o.downloaded_bytes >= m.downloaded_bytes
            &&& o.last_progress == m.last_progress
        }),
{
    reveal_strlit("Resolved ");
    reveal_strlit("Downloading ");
    reveal_strlit("Downloaded ");
    reveal_strlit("Prepared ");
    reveal_strlit("Installed ");
    reveal_strlit("Audited ");
    let keys = seq![
        "Resolved "@,
        "Downloading "@,
        "Downloaded "@,
        "Prepared "@,
        "Installed "@,
        "Audited "@,
    ];
    assert(keys[0] == "Resolved "@);
    assert(keys[1] == "Downloading "@);
    assert(keys[2] == "Downloaded "@);
    assert(keys[3] == "Prepared "@);
    assert(keys[4] == "Installed "@);
    assert(keys[5] == "Audited "@);
    assert forall|i: int, j: int|
        0 <= i < j < 6 && starts_with(line, #[trigger] keys[i]) implies !starts_with(line, #[trigger] keys[j]) by {
        if starts_with(line, keys[j]) {
            lemma_prefixes_agree_at(line, keys[i], keys[j], 0);
            lemma_prefixes_agree_at(line, keys[i], keys[j], 8);
        }
    }
}

/// How a line of git's transfer output moves the repository update, by
/// stage, for the percentage `p` the line shows: counting and compressing
/// objects span 25 to 29, receiving objects 29 to 52, resolving deltas 52
/// to 58, updating files 58 to 62 (a percentage over 100 counts as 100);
/// a line of no stage, or with no percentage, moves nothing.
pub proof fn lemma_git_line_stages(line: Seq<char>)
    ensures
        ({
            let q: int = match percent_in(line) {
                Some(p) => if p <= 100 { p as int } else { 100 },
                None => 0,
            };
            let counting = contains(line, "Counting objects:"@) || contains(line, "Compressing objects:"@);
            let receiving = contains(line, "Receiving objects:"@);
            let resolving = contains(line, "Resolving deltas:"@);
            let updating = contains(line, "Updating files:"@);
            &&& percent_in(line) is None ==> line_progress(line) is None
            &&& percent_in(line) is Some ==> {
                &&& counting ==> line_progress(line) == Some((25 + q * 4 / 100) as u8)
                &&& !counting && receiving ==> line_progress(line) == Some((29 + q * 23 / 100) as u8)
                &&& !counting && !receiving && resolving ==> line_progress(line) == Some(
                    (52 + q * 6 / 100) as u8,
                )
                &&& !counting && !receiving && !resolving && updating ==> line_progress(line) == Some(
                    (58 + q * 4 / 100) as u8,
                )
                &&& !counting && !receiving && !resolving && !updating ==> line_progress(line) is None
                &&& line_progress(line) is Some ==> 25 <= line_progress(line)->0 <= 62
            }
        }),
{
    match percent_in(line) {
        Some(p) => {
            let q: int = if p <= 100 { p as int } else { 100 };
            assert(0 <= q * 23 <= 2300 && 0 <= q * 6 <= 600 && 0 <= q * 4 <= 400) by (nonlinear_arith)
                requires
                    0 <= q <= 100,
            ;
        },
        None => {},
    }
}

} // verus!
