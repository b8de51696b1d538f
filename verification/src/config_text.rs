//! Line-by-line rewriting of the deploy configuration file: recording the
//! update method, and bringing an old configuration up to the layout of the
//! self-contained runtime.
use vstd::prelude::*;
use crate::deploy::{method_name, UpdateMethod};
use crate::platform::{
    adb_config_path, git_config_path, platform_adb_config_path, platform_git_config_path,
    platform_python_config_path, python_config_path, Platform,
};
use crate::text::{
    chars_of, contains, contains_str, ends_with, ends_with_str, eq_str, lead_ws, lead_ws_count, occurs_at, split_on, strip_cr,
    lemma_lead_ws_bound, lines_chars, lines_of, push_chars, push_str, seqs_of, slice_chars,
    starts_with, starts_with_str, trim, trim_chars, trim_start, utf8_len, utf8_len_exec,
    utf8_size,
};

verus! {

/// Lines written one after another, each ended by `\n`.
pub open spec fn terminated(ls: Seq<Seq<char>>) -> Seq<char>
    decreases ls.len(),
{
    if ls.len() == 0 {
        Seq::empty()
    } else {
        terminated(ls.drop_last()) + ls.last() + seq!['\n']
    }
}

/// The white space a line starts with.
pub open spec fn indent_of(line: Seq<char>) -> Seq<char> {
    line.take(lead_ws(line) as int)
}

/// A line that sets the update method, whatever its indentation.
pub open spec fn is_method_line(line: Seq<char>) -> bool {
    starts_with(trim_start(line), "UpdateMethod:"@)
}

/// The line as it stands once the update method is `name`.
pub open spec fn with_method(line: Seq<char>, name: Seq<char>) -> Seq<char> {
    if is_method_line(line) {
        indent_of(line) + "UpdateMethod: "@ + name
    } else {
        line
    }
}

pub open spec fn rewrite_method_lines(ls: Seq<Seq<char>>, name: Seq<char>) -> Seq<Seq<char>> {
    ls.map_values(|l: Seq<char>| with_method(l, name))
}

/// The configuration text once it selects update method `m`: every line that
/// sets the method sets `m` (keeping its indentation), and when none does a
/// setting indented by four spaces is added at the end. Nothing is written
/// for an empty configuration.
pub open spec fn update_method_text(content: Seq<char>, m: UpdateMethod) -> Option<Seq<char>> {
    if content.len() == 0 {
        None
    } else {
        let ls = lines_of(content);
        let body = terminated(rewrite_method_lines(ls, method_name(m)));
        if exists|i: int| 0 <= i < ls.len() && is_method_line(#[trigger] ls[i]) {
            Some(body)
        } else {
            Some(body + "    UpdateMethod: "@ + method_name(m) + seq!['\n'])
        }
    }
}

/// The indentation of a line and the line without it.
fn split_indent(line: &Vec<char>) -> (r: (Vec<char>, Vec<char>))
    ensures
        r.0@ == indent_of(line@),
        r.1@ == trim_start(line@),
{
    let k = lead_ws_count(line);
    proof {
        lemma_lead_ws_bound(line@);
    }
    let indent = slice_chars(line, 0, k);
    let rest = slice_chars(line, k, line.len());
    assert(indent@ =~= indent_of(line@));
    assert(rest@ =~= trim_start(line@));
    (indent, rest)
}

/// The configuration text that selects update method `method`; `None` for
/// an empty configuration, which is left as it is.
pub fn update_method_config_text(content: &str, method: UpdateMethod) -> (r: Option<String>)
    ensures
        match r {
            Some(s) => update_method_text(content@, method) == Some(s@),
            None => update_method_text(content@, method) is None,
        },
{
    let cs = chars_of(content);
    if cs.len() == 0 {
        return None;
    }
    let ls = lines_chars(&cs);
    let ghost lv = lines_of(content@);
    let name = method.name();
    let mut out = String::new();
    let mut found = false;
    let mut i: usize = 0;
    while i < ls.len()
        invariant
            i <= ls.len(),
            seqs_of(ls@) == lv,
            name@ == method_name(method),
            out@ == terminated(rewrite_method_lines(lv.take(i as int), name@)),
            found == exists|j: int| 0 <= j < i && is_method_line(#[trigger] lv[j]),
        decreases ls.len() - i,
    {
        let line = &ls[i];
        assert(line@ == lv[i as int]);
        let (indent, trimmed) = split_indent(line);
        let ghost before = out@;
        if starts_with_str(&trimmed, "UpdateMethod:") {
            push_chars(&mut out, &indent);
            push_str(&mut out, "UpdateMethod: ");
            push_str(&mut out, name);
            found = true;
        } else {
            push_chars(&mut out, line);
        }
        push_str(&mut out, "\n");
        proof {
            let next = rewrite_method_lines(lv.take(i + 1), name@);
            assert(next.drop_last() =~= rewrite_method_lines(lv.take(i as int), name@));
            assert(next.last() == with_method(lv[i as int], name@));
            reveal_strlit("\n");
            assert(out@ =~= terminated(next));
        }
        i = i + 1;
        assert(found == exists|j: int| 0 <= j < i && is_method_line(#[trigger] lv[j])) by {
            if found {
                if !is_method_line(lv[i - 1]) {
                    let j = choose|j: int| 0 <= j < i - 1 && is_method_line(#[trigger] lv[j]);
                }
            }
        }
    }
    assert(lv.take(ls.len() as int) =~= lv);
    if !found {
        push_str(&mut out, "    UpdateMethod: ");
        push_str(&mut out, name);
        push_str(&mut out, "\n");
        proof {
            reveal_strlit("\n");
        }
        assert(out@ =~= terminated(rewrite_method_lines(lv, name@)) + "    UpdateMethod: "@
            + method_name(method) + seq!['\n']);
    }
    Some(out)
}

/// What the migration has seen and written so far.
pub struct Migration {
    pub out: Seq<char>,
    pub found_python: bool,
    pub found_adb: bool,
    pub found_git: bool,
    pub found_install: bool,
    pub found_update_method: bool,
    pub in_update_section: bool,
    pub changed: bool,
}

pub open spec fn migration_start() -> Migration {
    Migration {
        out: Seq::empty(),
        found_python: false,
        found_adb: false,
        found_git: false,
        found_install: false,
        found_update_method: false,
        in_update_section: false,
        changed: false,
    }
}

/// One line of the configuration, migrated. `has_method` tells whether the
/// whole configuration mentions `UpdateMethod:` anywhere.
pub open spec fn migrate_line(st: Migration, line: Seq<char>, has_method: bool, p: Platform) -> Migration {
    let indent = indent_of(line);
    let t = trim_start(line);
    let nl = seq!['\n'];
    if starts_with(t, "Update:"@) {
        Migration { in_update_section: true, out: st.out + line + nl, ..st }
    } else if st.in_update_section && utf8_size(indent) <= 2 && ends_with(t, ":"@) {
        Migration { in_update_section: false, out: st.out + line + nl, ..st }
    } else if starts_with(t, "RequirementsFile:"@) {
        Migration { changed: true, ..st }
    } else if starts_with(t, "UpdateMethod:"@) {
        Migration { found_update_method: true, out: st.out + line + nl, ..st }
    } else if starts_with(t, "PythonExecutable:"@) {
        Migration {
            found_python: true,
            changed: true,
            out: st.out + indent + "PythonExecutable: "@ + python_config_path(p) + nl,
            ..st
        }
    } else if starts_with(t, "AdbExecutable:"@) {
        Migration {
            found_adb: true,
            changed: true,
            out: st.out + indent + "AdbExecutable: "@ + adb_config_path(p) + nl,
            ..st
        }
    } else if starts_with(t, "GitExecutable:"@) {
        Migration {
            found_git: true,
            changed: true,
            out: st.out + indent + "GitExecutable: "@ + git_config_path(p) + nl,
            ..st
        }
    } else if starts_with(t, "InstallDependencies:"@) {
        if trim(line) != "InstallDependencies: true"@ {
            Migration {
                found_install: true,
                changed: true,
                out: st.out + indent + "InstallDependencies: true"@ + nl,
                ..st
            }
        } else {
            Migration { found_install: true, out: st.out + line + nl, ..st }
        }
    } else if starts_with(t, "AutoRestartTime:"@) {
        if !has_method && !st.found_update_method {
            Migration {
                found_update_method: true,
                changed: true,
                out: st.out + line + nl + indent + "UpdateMethod: manual"@ + nl,
                ..st
            }
        } else {
            Migration { out: st.out + line + nl, ..st }
        }
    } else {
        Migration { out: st.out + line + nl, ..st }
    }
}

pub open spec fn migrate_lines(ls: Seq<Seq<char>>, has_method: bool, p: Platform) -> Migration
    decreases ls.len(),
{
    if ls.len() == 0 {
        migration_start()
    } else {
        migrate_line(migrate_lines(ls.drop_last(), has_method, p), ls.last(), has_method, p)
    }
}

/// The settings no line provided, added at the end.
pub open spec fn migrate_finish(st: Migration, p: Platform) -> Migration {
    let nl = seq!['\n'];
    let a = if !st.found_git {
        Migration {
            changed: true,
            out: st.out + nl + "GitExecutable: "@ + git_config_path(p) + nl,
            ..st
        }
    } else {
        st
    };
    let b = if !a.found_python {
        Migration { changed: true, out: a.out + "PythonExecutable: "@ + python_config_path(p) + nl, ..a }
    } else {
        a
    };
    let c = if !b.found_adb {
        Migration { changed: true, out: b.out + "AdbExecutable: "@ + adb_config_path(p) + nl, ..b }
    } else {
        b
    };
    let d = if !c.found_install {
        Migration { changed: true, out: c.out + "InstallDependencies: true"@ + nl, ..c }
    } else {
        c
    };
    if !d.found_update_method {
        Migration { changed: true, out: d.out + "    UpdateMethod: manual"@ + nl, ..d }
    } else {
        d
    }
}

/// The migrated configuration and whether it differs in substance from what
/// was read: a blank configuration is replaced by `default_config`; every
/// line is then migrated in turn and the missing settings are added.
pub open spec fn migrated_config(content: Seq<char>, default_config: Seq<char>, p: Platform) -> (
    Seq<char>,
    bool,
) {
    let blank = trim(content).len() == 0;
    let c = if blank {
        default_config
    } else {
        content
    };
    let has_method = contains(c, "UpdateMethod:"@);
    let st = migrate_finish(migrate_lines(lines_of(c), has_method, p), p);
    (st.out, st.changed || blank)
}

/// Bytes that the UTF-8 form of `v` takes.
fn utf8_size_exec(v: &Vec<char>) -> (n: usize)
    requires
        v.len() <= 1024,
    ensures
        n == utf8_size(v@),
{
    let mut n: usize = 0;
    let mut i: usize = 0;
    while i < v.len()
        invariant
            i <= v.len() <= 1024,
            n == utf8_size(v@.take(i as int)),
            n <= 4 * i,
        decreases v.len() - i,
    {
        assert(v@.take(i + 1).drop_last() =~= v@.take(i as int));
        n = n + utf8_len_exec(v[i]);
        i = i + 1;
    }
    assert(v@.take(v.len() as int) =~= v@);
    n
}

/// Whether the UTF-8 form of `v` takes at most two bytes.
fn fits_two_bytes(v: &Vec<char>) -> (b: bool)
    ensures
        b == (utf8_size(v@) <= 2),
{
    if v.len() > 2 {
        proof {
            lemma_utf8_size_at_least_len(v@);
        }
        return false;
    }
    utf8_size_exec(v) <= 2
}

proof fn lemma_utf8_size_at_least_len(s: Seq<char>)
    ensures
        utf8_size(s) >= s.len(),
    decreases s.len(),
{
    if s.len() > 0 {
        lemma_utf8_size_at_least_len(s.drop_last());
    }
}

/// The migration in progress.
struct MigrationRun {
    out: String,
    found_python: bool,
    found_adb: bool,
    found_git: bool,
    found_install: bool,
    found_update_method: bool,
    in_update_section: bool,
    changed: bool,
}

impl MigrationRun {
    spec fn state(&self) -> Migration {
        Migration {
            out: self.out@,
            found_python: self.found_python,
            found_adb: self.found_adb,
            found_git: self.found_git,
            found_install: self.found_install,
            found_update_method: self.found_update_method,
            in_update_section: self.in_update_section,
            changed: self.changed,
        }
    }

    fn new() -> (r: MigrationRun)
        ensures
            r.state() == migration_start(),
    {
        MigrationRun {
            out: String::new(),
            found_python: false,
            found_adb: false,
            found_git: false,
            found_install: false,
            found_update_method: false,
            in_update_section: false,
            changed: false,
        }
    }

    /// Writes a line that is kept as it is.
    fn keep(&mut self, line: &Vec<char>)
        ensures
            final(self).state() == (Migration { out: old(self).state().out + line@ + seq!['\n'], ..old(self).state() }),
    {
        let ghost start = self.out@;
        push_chars(&mut self.out, line);
        push_str(&mut self.out, "\n");
        proof {
            reveal_strlit("\n");
        }
        assert(self.out@ =~= start + line@ + seq!['\n']);
    }

    /// Writes a setting, indented as the line it replaces.
    fn setting(&mut self, indent: &Vec<char>, key: &str, value: &str)
        ensures
            final(self).state() == (Migration { out: old(self).state().out + indent@ + key@ + value@ + seq!['\n'], ..old(self).state() }),
    {
        let ghost start = self.out@;
        push_chars(&mut self.out, indent);
        push_str(&mut self.out, key);
        push_str(&mut self.out, value);
        push_str(&mut self.out, "\n");
        proof {
            reveal_strlit("\n");
        }
        assert(self.out@ =~= start + indent@ + key@ + value@ + seq!['\n']);
    }

    fn step(&mut self, line: &Vec<char>, has_method: bool, platform: Platform)
        ensures
            final(self).state() == migrate_line(old(self).state(), line@, has_method, platform),
    {
        let (indent, t) = split_indent(line);
        proof {
            reveal_strlit("\n");
            reveal_strlit("");
        }
        if starts_with_str(&t, "Update:") {
            self.in_update_section = true;
            self.keep(line);
        } else if self.in_update_section && fits_two_bytes(&indent) && ends_with_str(&t, ":") {
            self.in_update_section = false;
            self.keep(line);
        } else if starts_with_str(&t, "RequirementsFile:") {
            self.changed = true;
        } else if starts_with_str(&t, "UpdateMethod:") {
            self.found_update_method = true;
            self.keep(line);
        } else if starts_with_str(&t, "PythonExecutable:") {
            self.found_python = true;
            self.changed = true;
            self.setting(&indent, "PythonExecutable: ", platform_python_config_path(platform));
        } else if starts_with_str(&t, "AdbExecutable:") {
            self.found_adb = true;
            self.changed = true;
            self.setting(&indent, "AdbExecutable: ", platform_adb_config_path(platform));
        } else if starts_with_str(&t, "GitExecutable:") {
            self.found_git = true;
            self.changed = true;
            self.setting(&indent, "GitExecutable: ", platform_git_config_path(platform));
        } else if starts_with_str(&t, "InstallDependencies:") {
            self.found_install = true;
            let whole = trim_chars(line);
            if !eq_str(&whole, "InstallDependencies: true") {
                self.changed = true;
                self.setting(&indent, "InstallDependencies: true", "");
                assert("InstallDependencies: true"@ + ""@ =~= "InstallDependencies: true"@);
            } else {
                self.keep(line);
            }
        } else if starts_with_str(&t, "AutoRestartTime:") {
            if !has_method && !self.found_update_method {
                self.keep(line);
                self.found_update_method = true;
                self.changed = true;
                self.setting(&indent, "UpdateMethod: manual", "");
                assert("UpdateMethod: manual"@ + ""@ =~= "UpdateMethod: manual"@);
            } else {
                self.keep(line);
            }
        } else {
            self.keep(line);
        }
    }

    /// Adds the settings that no line provided.
    fn finish(&mut self, platform: Platform)
        ensures
            final(self).state() == migrate_finish(old(self).state(), platform),
    {
        let empty: Vec<char> = Vec::new();
        let ghost st = self.state();
        proof {
            reveal_strlit("\n");
            reveal_strlit("");
        }
        if !self.found_git {
            push_str(&mut self.out, "\n");
            self.changed = true;
            self.setting(&empty, "GitExecutable: ", platform_git_config_path(platform));
        }
        let ghost a = self.state();
        assert(a.out =~= (if !st.found_git { st.out + seq!['\n'] + "GitExecutable: "@ + git_config_path(platform) + seq!['\n'] } else { st.out }));
        if !self.found_python {
            self.changed = true;
            self.setting(&empty, "PythonExecutable: ", platform_python_config_path(platform));
        }
        let ghost b = self.state();
        assert(b.out =~= (if !a.found_python { a.out + "PythonExecutable: "@ + python_config_path(platform) + seq!['\n'] } else { a.out }));
        if !self.found_adb {
            self.changed = true;
            self.setting(&empty, "AdbExecutable: ", platform_adb_config_path(platform));
        }
        let ghost c = self.state();
        assert(c.out =~= (if !b.found_adb { b.out + "AdbExecutable: "@ + adb_config_path(platform) + seq!['\n'] } else { b.out }));
        if !self.found_install {
            self.changed = true;
            self.setting(&empty, "InstallDependencies: true", "");
        }
        let ghost d = self.state();
        assert(d.out =~= (if !c.found_install { c.out + "InstallDependencies: true"@ + seq!['\n'] } else { c.out }));
        if !self.found_update_method {
            self.changed = true;
            self.setting(&empty, "    UpdateMethod: manual", "");
        }
        assert(self.state().out =~= (if !d.found_update_method { d.out + "    UpdateMethod: manual"@ + seq!['\n'] } else { d.out }));
    }
}

/// Migrates a configuration file's text for the self-contained runtime.
/// Returns the new text and whether it must be written back.
pub fn migrate_dependency_config(content: &str, default_config: &str, platform: Platform) -> (r: (
    String,
    bool,
))
    ensures
        (r.0@, r.1) == migrated_config(content@, default_config@, platform),
{
    let original = chars_of(content);
    let blank = trim_chars(&original).len() == 0;
    let cs = if blank {
        chars_of(default_config)
    } else {
        original
    };
    let has_method = contains_str(&cs, "UpdateMethod:");
    let ls = lines_chars(&cs);
    let ghost lv = lines_of(cs@);
    let mut run = MigrationRun::new();
    let mut i: usize = 0;
    while i < ls.len()
        invariant
            i <= ls.len(),
            seqs_of(ls@) == lv,
            run.state() == migrate_lines(lv.take(i as int), has_method, platform),
        decreases ls.len() - i,
    {
        assert(ls@[i as int]@ == lv[i as int]);
        assert(lv.take(i + 1).drop_last() =~= lv.take(i as int));
        assert(lv.take(i + 1).last() == lv[i as int]);
        run.step(&ls[i], has_method, platform);
        i = i + 1;
    }
    assert(lv.take(ls.len() as int) =~= lv);
    run.finish(platform);
    (run.out, run.changed || blank)
}

pub open spec fn no_newlines(ls: Seq<Seq<char>>) -> bool {
    forall|i: int| 0 <= i < ls.len() ==> !(#[trigger] ls[i]).contains('\n')
}

pub open spec fn ends_with_cr(l: Seq<char>) -> bool {
    l.len() > 0 && l.last() == '\r'
}

proof fn lemma_split_terminated(ls: Seq<Seq<char>>)
    requires
        no_newlines(ls),
    ensures
        split_on(terminated(ls), '\n') == ls.push(Seq::<char>::empty()),
    decreases ls.len(),
{
    if ls.len() == 0 {
        assert(split_on(Seq::<char>::empty(), '\n') =~= seq![Seq::<char>::empty()]);
        assert(ls.push(Seq::<char>::empty()) =~= seq![Seq::<char>::empty()]);
    } else {
        let prev = ls.drop_last();
        let l = ls.last();
        assert(no_newlines(prev)) by {
            assert forall|i: int| 0 <= i < prev.len() implies !(#[trigger] prev[i]).contains('\n') by {
                assert(prev[i] == ls[i]);
            }
        }
        lemma_split_terminated(prev);
        let t = terminated(prev);
        assert(ls[ls.len() - 1] == l);
        crate::text::lemma_split_on_append_piece(t, l, '\n');
        assert(terminated(ls) == (t + l).push('\n')) by {
            assert(t + l + seq!['\n'] =~= (t + l).push('\n'));
        }
        crate::text::lemma_split_on_push_sep(t + l, '\n');
        let sp = prev.push(Seq::<char>::empty());
        assert(sp.update(sp.len() - 1, sp.last() + l) =~= ls) by {
            assert(Seq::<char>::empty() + l =~= l);
        }
    }
}

/// Lines without line feeds read back, once written out, as themselves,
/// less a carriage return that ended one.
proof fn lemma_lines_of_terminated_cr(ls: Seq<Seq<char>>)
    requires
        no_newlines(ls),
    ensures
        lines_of(terminated(ls)) == ls.map_values(|x: Seq<char>| strip_cr(x)),
{
    lemma_split_terminated(ls);
    let p = ls.push(Seq::<char>::empty());
    assert(p.drop_last() =~= ls);
}

/// Lines without line feeds, none ending in a carriage return, read back
/// as themselves once written out.
proof fn lemma_lines_of_terminated(ls: Seq<Seq<char>>)
    requires
        no_newlines(ls),
        forall|i: int| 0 <= i < ls.len() ==> !ends_with_cr(#[trigger] ls[i]),
    ensures
        lines_of(terminated(ls)) == ls,
{
    lemma_lines_of_terminated_cr(ls);
    assert(ls.map_values(|x: Seq<char>| strip_cr(x)) =~= ls) by {
        assert forall|i: int| 0 <= i < ls.len() implies strip_cr(ls[i]) == ls[i] by {
            assert(!ends_with_cr(ls[i]));
        }
    }
}

proof fn lemma_terminated_split(ls: Seq<Seq<char>>, k: int)
    requires
        0 <= k <= ls.len(),
    ensures
        terminated(ls) == terminated(ls.take(k)) + terminated(ls.skip(k)),
    decreases ls.len(),
{
    if k == ls.len() {
        assert(ls.take(k) =~= ls);
        assert(ls.skip(k) =~= Seq::<Seq<char>>::empty());
        assert(terminated(ls) + Seq::<char>::empty() =~= terminated(ls));
    } else {
        lemma_terminated_split(ls.drop_last(), k);
        assert(ls.drop_last().take(k) =~= ls.take(k));
        assert(ls.skip(k).drop_last() =~= ls.drop_last().skip(k));
        assert(ls.skip(k).last() == ls.last());
        assert(terminated(ls.take(k)) + terminated(ls.skip(k)) =~= terminated(ls.take(k))
            + terminated(ls.drop_last().skip(k)) + ls.last() + seq!['\n']);
    }
}

/// A written line that ends in a carriage return leaves `\r\n` in the text.
proof fn lemma_cr_line_gives_crlf(ls: Seq<Seq<char>>, i: int)
    requires
        0 <= i < ls.len(),
        ends_with_cr(ls[i]),
    ensures
        contains(terminated(ls), "\r\n"@),
{
    lemma_terminated_split(ls, i + 1);
    let head = terminated(ls.take(i + 1));
    assert(ls.take(i + 1).drop_last() =~= ls.take(i));
    assert(ls.take(i + 1).last() == ls[i]);
    let t = terminated(ls.take(i));
    let l = ls[i];
    assert(head == t + l + seq!['\n']);
    let pos = t.len() + l.len() - 1;
    let whole = terminated(ls);
    reveal_strlit("\r\n");
    assert(whole.subrange(pos, pos + 2) =~= "\r\n"@) by {
        assert(whole[pos] == head[pos]);
        assert(whole[pos + 1] == head[pos + 1]);
        assert(head[pos] == l[l.len() - 1]);
    }
    assert(occurs_at(whole, "\r\n"@, pos));
}

/// A method line set to a name keeps its indentation and stays a method line.
proof fn lemma_with_method_line(l: Seq<char>, name: Seq<char>)
    requires
        is_method_line(l),
    ensures
        is_method_line(with_method(l, name)),
        indent_of(with_method(l, name)) == indent_of(l),
{
    crate::text::lemma_lead_ws_bound(l);
    let ind = indent_of(l);
    let x = with_method(l, name);
    reveal_strlit("UpdateMethod: ");
    reveal_strlit("UpdateMethod:");
    assert(x == ind + "UpdateMethod: "@ + name);
    assert(x[ind.len() as int] == 'U');
    assert forall|j: int| 0 <= j < ind.len() implies crate::text::is_ws(#[trigger] x[j]) by {
        assert(x[j] == l[j]);
    }
    crate::text::lemma_lead_ws_at(x, ind.len() as int);
    assert(x.take(ind.len() as int) =~= ind);
    assert(trim_start(x) =~= "UpdateMethod: "@ + name);
    assert(trim_start(x).take(13) =~= "UpdateMethod:"@);
}

proof fn lemma_method_names(m: UpdateMethod)
    ensures
        !method_name(m).contains('\n'),
        method_name(m).len() > 0,
        method_name(m).last() != '\r',
{
    reveal_strlit("manual");
    reveal_strlit("background");
    reveal_strlit("startup");
    if method_name(m).contains('\n') {
        let k = choose|k: int| 0 <= k < method_name(m).len() && method_name(m)[k] == '\n';
    }
}

/// A line set to a method name holds no line feed and does not end in a
/// carriage return, when it started without line feeds.
proof fn lemma_with_method_plain(l: Seq<char>, m: UpdateMethod)
    requires
        !l.contains('\n'),
        is_method_line(l),
    ensures
        !with_method(l, method_name(m)).contains('\n'),
        !ends_with_cr(with_method(l, method_name(m))),
{
    lemma_method_names(m);
    crate::text::lemma_lead_ws_bound(l);
    reveal_strlit("UpdateMethod: ");
    let x = with_method(l, method_name(m));
    let ind = indent_of(l);
    let n = method_name(m);
    assert(x == ind + "UpdateMethod: "@ + n);
    if x.contains('\n') {
        let k = choose|k: int| 0 <= k < x.len() && x[k] == '\n';
        if k < ind.len() {
            assert(l[k] == '\n');
        } else if k >= ind.len() + 14 {
            assert(n[k - ind.len() - 14] == '\n');
        }
    }
    assert(x.last() == n.last());
}

/// Choosing an update method and then another is the same as choosing the
/// second at once, unless the first choice left a line ending in a carriage
/// return before its line feed (reading the text again drops that `\r`).
pub proof fn lemma_update_method_last_write_wins(c: Seq<char>, m1: UpdateMethod, m2: UpdateMethod)
    requires
        c.len() > 0,
        !contains(update_method_text(c, m1)->0, "\r\n"@),
    ensures
        update_method_text(update_method_text(c, m1)->0, m2) == update_method_text(c, m2),
{
    let ls = lines_of(c);
    let n1 = method_name(m1);
    let n2 = method_name(m2);
    let r1 = rewrite_method_lines(ls, n1);
    let found = exists|i: int| 0 <= i < ls.len() && is_method_line(#[trigger] ls[i]);
    let app1 = "    UpdateMethod: "@ + n1;
    let xs = if found {
        r1
    } else {
        r1.push(app1)
    };
    reveal_strlit("    UpdateMethod: ");
    reveal_strlit("UpdateMethod: ");
    reveal_strlit("UpdateMethod:");
    crate::text::lemma_lines_of_no_newline(c);
    lemma_method_names(m1);
    lemma_method_names(m2);
    // The first text, as lines.
    assert(terminated(xs) == update_method_text(c, m1)->0) by {
        if !found {
            assert(xs.drop_last() =~= r1);
            assert(terminated(r1) + app1 + seq!['\n'] =~= terminated(r1) + "    UpdateMethod: "@ + n1 + seq!['\n']);
        }
    }
    assert(no_newlines(r1)) by {
        assert forall|i: int| 0 <= i < r1.len() implies !(#[trigger] r1[i]).contains('\n') by {
            if is_method_line(ls[i]) {
                lemma_with_method_plain(ls[i], m1);
            }
        }
    }
    let app1_plain = !app1.contains('\n') && !ends_with_cr(app1);
    assert(app1_plain) by {
        if app1.contains('\n') {
            let k = choose|k: int| 0 <= k < app1.len() && app1[k] == '\n';
            assert(n1[k - 18] == '\n');
        }
        assert(app1.last() == n1.last());
    }
    assert(no_newlines(xs)) by {
        assert forall|i: int| 0 <= i < xs.len() implies !(#[trigger] xs[i]).contains('\n') by {
            if i < r1.len() {
                assert(xs[i] == r1[i]);
            }
        }
    }
    assert forall|i: int| 0 <= i < xs.len() implies !ends_with_cr(#[trigger] xs[i]) by {
        if ends_with_cr(xs[i]) {
            lemma_cr_line_gives_crlf(xs, i);
        }
    }
    lemma_lines_of_terminated(xs);
    // The first text has a method line.
    assert(lead_ws(app1) == 4) by {
        assert forall|j: int| 0 <= j < 4 implies crate::text::is_ws(#[trigger] app1[j]) by {}
        crate::text::lemma_lead_ws_at(app1, 4);
    }
    let app1_method = is_method_line(app1);
    assert(app1_method) by {
        assert(trim_start(app1).take(13) =~= "UpdateMethod:"@);
    }
    let w = if found {
        choose|i: int| 0 <= i < ls.len() && is_method_line(#[trigger] ls[i])
    } else {
        r1.len() as int
    };
    assert(is_method_line(xs[w])) by {
        if found {
            lemma_with_method_line(ls[w], n1);
        }
    }
    assert(terminated(xs).len() > 0) by {
        assert(xs.len() > 0);
        lemma_terminated_split(xs, xs.len() - 1);
    }
    // Rewriting again gives the second choice directly.
    let r2 = rewrite_method_lines(ls, n2);
    assert(rewrite_method_lines(r1, n2) =~= r2) by {
        assert forall|i: int| 0 <= i < ls.len() implies with_method(r1[i], n2) == r2[i] by {
            if is_method_line(ls[i]) {
                lemma_with_method_line(ls[i], n1);
            }
        }
    }
    if found {
        assert(rewrite_method_lines(xs, n2) == r2);
    } else {
        let app2 = "    UpdateMethod: "@ + n2;
        reveal_strlit("    ");
        assert(indent_of(app1) =~= "    "@);
        assert(with_method(app1, n2) =~= app2);
        assert(rewrite_method_lines(xs, n2) =~= r2.push(app2));
        assert(terminated(r2.push(app2)) =~= terminated(r2) + "    UpdateMethod: "@ + n2 + seq!['\n']) by {
            assert(r2.push(app2).drop_last() =~= r2);
        }
        assert(!exists|i: int| 0 <= i < ls.len() && is_method_line(#[trigger] ls[i]));
    }
}

/// Dropping a carriage return that ends a line never makes it a method line.
proof fn lemma_strip_cr_method(l: Seq<char>)
    requires
        is_method_line(strip_cr(l)),
    ensures
        is_method_line(l),
{
    if ends_with_cr(l) {
        let d = l.drop_last();
        crate::text::lemma_lead_ws_bound(d);
        let k = lead_ws(d) as int;
        reveal_strlit("UpdateMethod:");
        assert(trim_start(d).take(13) == "UpdateMethod:"@);
        assert(k + 13 <= d.len());
        assert(d[k] == trim_start(d)[0]);
        assert(trim_start(d).take(13)[0] == trim_start(d)[0]);
        assert("UpdateMethod:"@[0] == 'U');
        assert(d[k] == 'U');
        assert forall|j: int| 0 <= j < k implies crate::text::is_ws(#[trigger] l[j]) by {
            assert(l[j] == d[j]);
        }
        assert(l[k] == d[k]);
        crate::text::lemma_lead_ws_at(l, k);
        assert(trim_start(l).take(13) =~= trim_start(d).take(13)) by {
            assert forall|j: int| 0 <= j < 13 implies trim_start(l)[j] == trim_start(d)[j] by {
                assert(trim_start(l)[j] == l[k + j]);
                assert(trim_start(d)[j] == d[k + j]);
                assert(l[k + j] == d[k + j]);
            }
        }
    }
}

/// After the update method is chosen, the text read again line by line
/// sets it: some line sets the method, and every line that sets it names
/// the chosen method. Line by line, only the lines that set the method
/// change (to their indentation and `UpdateMethod: ` and the method's
/// name); every other line reads back as it was (less a carriage return
/// it ended with), and a setting is added at the end only when no line set
/// the method.
pub proof fn lemma_update_method_reads_back(c: Seq<char>, m: UpdateMethod)
    requires
        c.len() > 0,
    ensures
        ({
            let ls2 = lines_of(update_method_text(c, m)->0);
            &&& exists|i: int| 0 <= i < ls2.len() && is_method_line(#[trigger] ls2[i])
            &&& forall|i: int|
                0 <= i < ls2.len() && is_method_line(#[trigger] ls2[i]) ==> trim_start(ls2[i])
                    == "UpdateMethod: "@ + method_name(m)
        }),
        ({
            let ls = lines_of(c);
            let ls2 = lines_of(update_method_text(c, m)->0);
            let found = exists|i: int| 0 <= i < ls.len() && is_method_line(#[trigger] ls[i]);
            &&& forall|i: int|
                0 <= i < ls.len() ==> #[trigger] ls2[i] == (if is_method_line(ls[i]) {
                    indent_of(ls[i]) + "UpdateMethod: "@ + method_name(m)
                } else {
                    strip_cr(ls[i])
                })
            &&& found ==> ls2.len() == ls.len()
            &&& !found ==> ls2.len() == ls.len() + 1 && ls2.last() == "    UpdateMethod: "@
                + method_name(m)
        }),
{
    let ls = lines_of(c);
    let n = method_name(m);
    let r = rewrite_method_lines(ls, n);
    let found = exists|i: int| 0 <= i < ls.len() && is_method_line(#[trigger] ls[i]);
    let app = "    UpdateMethod: "@ + n;
    let xs = if found {
        r
    } else {
        r.push(app)
    };
    reveal_strlit("    UpdateMethod: ");
    reveal_strlit("UpdateMethod: ");
    reveal_strlit("UpdateMethod:");
    crate::text::lemma_lines_of_no_newline(c);
    lemma_method_names(m);
    assert(terminated(xs) == update_method_text(c, m)->0) by {
        if !found {
            assert(xs.drop_last() =~= r);
            assert(terminated(r) + app + seq!['\n'] =~= terminated(r) + "    UpdateMethod: "@ + n + seq!['\n']);
        }
    }
    assert(!app.contains('\n') && !ends_with_cr(app)) by {
        if app.contains('\n') {
            let k = choose|k: int| 0 <= k < app.len() && app[k] == '\n';
            assert(n[k - 18] == '\n');
        }
        assert(app.last() == n.last());
    }
    assert(lead_ws(app) == 4) by {
        assert forall|j: int| 0 <= j < 4 implies crate::text::is_ws(#[trigger] app[j]) by {}
        crate::text::lemma_lead_ws_at(app, 4);
    }
    assert(trim_start(app) =~= "UpdateMethod: "@ + n);
    assert(is_method_line(app)) by {
        assert(trim_start(app).take(13) =~= "UpdateMethod:"@);
    }
    // Each written line: a method line names `m` and ends with its name.
    assert forall|i: int| 0 <= i < xs.len() implies !(#[trigger] xs[i]).contains('\n') && (
    is_method_line(xs[i]) ==> trim_start(xs[i]) == "UpdateMethod: "@ + n && !ends_with_cr(xs[i])) by {
        if i < r.len() {
            assert(xs[i] == r[i]);
            if is_method_line(ls[i]) {
                lemma_with_method_plain(ls[i], m);
                lemma_with_method_line(ls[i], n);
                crate::text::lemma_lead_ws_bound(ls[i]);
                let x = r[i];
                let ind = indent_of(ls[i]);
                assert(x == ind + "UpdateMethod: "@ + n);
                assert(indent_of(x) == ind);
                crate::text::lemma_lead_ws_bound(x);
                assert(trim_start(x) =~= "UpdateMethod: "@ + n);
            } else {
                assert(xs[i] == ls[i]);
            }
        }
    }
    lemma_lines_of_terminated_cr(xs);
    let ls2 = lines_of(terminated(xs));
    let w = if found {
        choose|i: int| 0 <= i < ls.len() && is_method_line(#[trigger] ls[i])
    } else {
        r.len() as int
    };
    assert(is_method_line(xs[w])) by {
        if found {
            lemma_with_method_line(ls[w], n);
        }
    }
    assert(ls2[w] == strip_cr(xs[w]));
    assert(is_method_line(ls2[w]));
    assert forall|i: int| 0 <= i < ls2.len() && is_method_line(#[trigger] ls2[i]) implies trim_start(ls2[i])
        == "UpdateMethod: "@ + n by {
        assert(ls2[i] == strip_cr(xs[i]));
        lemma_strip_cr_method(xs[i]);
        assert(strip_cr(xs[i]) == xs[i]);
    }
    assert(ls2.len() == xs.len());
    assert forall|i: int| 0 <= i < ls.len() implies #[trigger] ls2[i] == (if is_method_line(ls[i]) {
        indent_of(ls[i]) + "UpdateMethod: "@ + n
    } else {
        strip_cr(ls[i])
    }) by {
        assert(ls2[i] == strip_cr(xs[i]));
        assert(xs[i] == r[i]);
        if is_method_line(ls[i]) {
            lemma_with_method_line(ls[i], n);
            lemma_strip_cr_method(xs[i]);
        } else {
            assert(xs[i] == ls[i]);
        }
    }
    if !found {
        assert(ls2.last() == strip_cr(xs.last()));
        lemma_strip_cr_method(app);
    }
}

/// The lines that one line of the configuration becomes in the migration.
pub open spec fn emitted(st: Migration, line: Seq<char>, has_method: bool, p: Platform) -> Seq<Seq<char>> {
    let indent = indent_of(line);
    let t = trim_start(line);
    if starts_with(t, "Update:"@) {
        seq![line]
    } else if st.in_update_section && utf8_size(indent) <= 2 && ends_with(t, ":"@) {
        seq![line]
    } else if starts_with(t, "RequirementsFile:"@) {
        Seq::empty()
    } else if starts_with(t, "UpdateMethod:"@) {
        seq![line]
    } else if starts_with(t, "PythonExecutable:"@) {
        seq![indent + "PythonExecutable: "@ + python_config_path(p)]
    } else if starts_with(t, "AdbExecutable:"@) {
        seq![indent + "AdbExecutable: "@ + adb_config_path(p)]
    } else if starts_with(t, "GitExecutable:"@) {
        seq![indent + "GitExecutable: "@ + git_config_path(p)]
    } else if starts_with(t, "InstallDependencies:"@) {
        if trim(line) != "InstallDependencies: true"@ {
            seq![indent + "InstallDependencies: true"@]
        } else {
            seq![line]
        }
    } else if starts_with(t, "AutoRestartTime:"@) {
        if !has_method && !st.found_update_method {
            seq![line, indent + "UpdateMethod: manual"@]
        } else {
            seq![line]
        }
    } else {
        seq![line]
    }
}

/// The lines the migration writes for the configuration's lines.
pub open spec fn body_lines(ls: Seq<Seq<char>>, has_method: bool, p: Platform) -> Seq<Seq<char>>
    decreases ls.len(),
{
    if ls.len() == 0 {
        Seq::empty()
    } else {
        body_lines(ls.drop_last(), has_method, p) + emitted(
            migrate_lines(ls.drop_last(), has_method, p),
            ls.last(),
            has_method,
            p,
        )
    }
}

/// The lines the migration adds at the end for settings no line provided.
pub open spec fn finish_lines(st: Migration, p: Platform) -> Seq<Seq<char>> {
    opt_lines(!st.found_git, seq![Seq::<char>::empty(), "GitExecutable: "@ + git_config_path(p)])
        + opt_lines(!st.found_python, seq!["PythonExecutable: "@ + python_config_path(p)])
        + opt_lines(!st.found_adb, seq!["AdbExecutable: "@ + adb_config_path(p)])
        + opt_lines(!st.found_install, seq!["InstallDependencies: true"@])
        + opt_lines(!st.found_update_method, seq!["    UpdateMethod: manual"@])
}

proof fn lemma_terminated_concat(a: Seq<Seq<char>>, b: Seq<Seq<char>>)
    ensures
        terminated(a + b) == terminated(a) + terminated(b),
{
    lemma_terminated_split(a + b, a.len() as int);
    assert((a + b).take(a.len() as int) =~= a);
    assert((a + b).skip(a.len() as int) =~= b);
}

proof fn lemma_terminated_one(x: Seq<char>)
    ensures
        terminated(seq![x]) == x + seq!['\n'],
{
    assert(seq![x].drop_last() =~= Seq::<Seq<char>>::empty());
    assert(seq![x].last() == x);
    assert(terminated(Seq::<Seq<char>>::empty()) == Seq::<char>::empty());
    assert(Seq::<char>::empty() + x + seq!['\n'] =~= x + seq!['\n']);
}

proof fn lemma_terminated_two(x: Seq<char>, y: Seq<char>)
    ensures
        terminated(seq![x, y]) == x + seq!['\n'] + y + seq!['\n'],
{
    assert(seq![x, y].drop_last() =~= seq![x]);
    lemma_terminated_one(x);
}

/// A migrated line writes exactly its emitted lines.
proof fn lemma_migrate_line_out(st: Migration, line: Seq<char>, has_method: bool, p: Platform)
    ensures
        migrate_line(st, line, has_method, p).out == st.out + terminated(emitted(st, line, has_method, p)),
{
    let e = emitted(st, line, has_method, p);
    assert(terminated(Seq::<Seq<char>>::empty()) == Seq::<char>::empty());
    if e.len() == 1 {
        lemma_terminated_one(e[0]);
        assert(e =~= seq![e[0]]);
    } else if e.len() == 2 {
        lemma_terminated_two(e[0], e[1]);
        assert(e =~= seq![e[0], e[1]]);
    }
    let r = migrate_line(st, line, has_method, p);
    assert(r.out =~= st.out + terminated(e));
}

/// The migration of the configuration's lines writes its body lines.
proof fn lemma_migrate_lines_out(ls: Seq<Seq<char>>, has_method: bool, p: Platform)
    ensures
        migrate_lines(ls, has_method, p).out == terminated(body_lines(ls, has_method, p)),
    decreases ls.len(),
{
    if ls.len() > 0 {
        lemma_migrate_lines_out(ls.drop_last(), has_method, p);
        let st = migrate_lines(ls.drop_last(), has_method, p);
        lemma_migrate_line_out(st, ls.last(), has_method, p);
        lemma_terminated_concat(body_lines(ls.drop_last(), has_method, p), emitted(st, ls.last(), has_method, p));
    }
}

pub open spec fn opt_text(b: bool, t: Seq<char>) -> Seq<char> {
    if b { t } else { Seq::empty() }
}

pub open spec fn opt_lines(b: bool, t: Seq<Seq<char>>) -> Seq<Seq<char>> {
    if b { t } else { Seq::empty() }
}

/// What the end of the migration writes, as text.
pub open spec fn finish_text(st: Migration, p: Platform) -> Seq<char> {
    let nl = seq!['\n'];
    opt_text(!st.found_git, nl + "GitExecutable: "@ + git_config_path(p) + nl)
        + opt_text(!st.found_python, "PythonExecutable: "@ + python_config_path(p) + nl)
        + opt_text(!st.found_adb, "AdbExecutable: "@ + adb_config_path(p) + nl)
        + opt_text(!st.found_install, "InstallDependencies: true"@ + nl)
        + opt_text(!st.found_update_method, "    UpdateMethod: manual"@ + nl)
}

proof fn lemma_concat6(o: Seq<char>, t1: Seq<char>, t2: Seq<char>, t3: Seq<char>, t4: Seq<char>, t5: Seq<char>)
    ensures
        o + t1 + t2 + t3 + t4 + t5 == o + (t1 + t2 + t3 + t4 + t5),
{
    assert(o + t1 + t2 + t3 + t4 + t5 =~= o + (t1 + t2 + t3 + t4 + t5));
}

proof fn lemma_finish_step(o: Seq<char>, b: bool, line: Seq<char>)
    ensures
        (if b { o + line + seq!['\n'] } else { o }) == o + opt_text(b, line + seq!['\n']),
{
    assert(o + line + seq!['\n'] =~= o + (line + seq!['\n']));
    assert(o + Seq::<char>::empty() =~= o);
}

proof fn lemma_finish_chain(
    o: Seq<char>,
    b1: bool,
    b2: bool,
    b3: bool,
    b4: bool,
    b5: bool,
    l1: Seq<char>,
    l2: Seq<char>,
    l3: Seq<char>,
    l4: Seq<char>,
    l5: Seq<char>,
)
    ensures
        ({
            let nl = seq!['\n'];
            let o1 = if b1 { o + nl + l1 + nl } else { o };
            let o2 = if b2 { o1 + l2 + nl } else { o1 };
            let o3 = if b3 { o2 + l3 + nl } else { o2 };
            let o4 = if b4 { o3 + l4 + nl } else { o3 };
            let o5 = if b5 { o4 + l5 + nl } else { o4 };
            o5 == o + (opt_text(b1, nl + l1 + nl) + opt_text(b2, l2 + nl) + opt_text(b3, l3 + nl)
                + opt_text(b4, l4 + nl) + opt_text(b5, l5 + nl))
        }),
{
    let nl = seq!['\n'];
    let o1 = if b1 { o + nl + l1 + nl } else { o };
    assert(o1 == o + opt_text(b1, nl + l1 + nl)) by {
        assert(o + nl + l1 + nl =~= o + (nl + l1 + nl));
        assert(o + Seq::<char>::empty() =~= o);
    }
    let o2 = if b2 { o1 + l2 + nl } else { o1 };
    lemma_finish_step(o1, b2, l2);
    let o3 = if b3 { o2 + l3 + nl } else { o2 };
    lemma_finish_step(o2, b3, l3);
    let o4 = if b4 { o3 + l4 + nl } else { o3 };
    lemma_finish_step(o3, b4, l4);
    let o5 = if b5 { o4 + l5 + nl } else { o4 };
    lemma_finish_step(o4, b5, l5);
    lemma_concat6(o, opt_text(b1, nl + l1 + nl), opt_text(b2, l2 + nl), opt_text(b3, l3 + nl), opt_text(b4, l4 + nl), opt_text(b5, l5 + nl));
}

proof fn lemma_finish_unfold(st: Migration, p: Platform)
    ensures
        ({
            let nl = seq!['\n'];
            let o1 = if !st.found_git { st.out + nl + ("GitExecutable: "@ + git_config_path(p)) + nl } else { st.out };
            let o2 = if !st.found_python { o1 + ("PythonExecutable: "@ + python_config_path(p)) + nl } else { o1 };
            let o3 = if !st.found_adb { o2 + ("AdbExecutable: "@ + adb_config_path(p)) + nl } else { o2 };
            let o4 = if !st.found_install { o3 + "InstallDependencies: true"@ + nl } else { o3 };
            let o5 = if !st.found_update_method { o4 + "    UpdateMethod: manual"@ + nl } else { o4 };
            migrate_finish(st, p).out == o5
        }),
{
    let nl = seq!['\n'];
    let gl = "GitExecutable: "@ + git_config_path(p);
    let pl = "PythonExecutable: "@ + python_config_path(p);
    let al = "AdbExecutable: "@ + adb_config_path(p);
    assert(st.out + nl + "GitExecutable: "@ + git_config_path(p) + nl =~= st.out + nl + gl + nl);
    assert(forall|o: Seq<char>| o + "PythonExecutable: "@ + python_config_path(p) + nl =~= o + pl + nl);
    assert(forall|o: Seq<char>| o + "AdbExecutable: "@ + adb_config_path(p) + nl =~= o + al + nl);
}

proof fn lemma_finish_text(st: Migration, p: Platform)
    ensures
        migrate_finish(st, p).out == st.out + finish_text(st, p),
{
    lemma_finish_unfold(st, p);
    lemma_finish_chain(
        st.out,
        !st.found_git,
        !st.found_python,
        !st.found_adb,
        !st.found_install,
        !st.found_update_method,
        "GitExecutable: "@ + git_config_path(p),
        "PythonExecutable: "@ + python_config_path(p),
        "AdbExecutable: "@ + adb_config_path(p),
        "InstallDependencies: true"@,
        "    UpdateMethod: manual"@,
    );
}

proof fn lemma_opt_terminated(b: bool, ls: Seq<Seq<char>>)
    ensures
        terminated(opt_lines(b, ls)) == opt_text(b, terminated(ls)),
{
    assert(terminated(Seq::<Seq<char>>::empty()) == Seq::<char>::empty());
}

proof fn lemma_finish_lines_chain(
    b1: bool,
    b2: bool,
    b3: bool,
    b4: bool,
    b5: bool,
    l1: Seq<char>,
    l2: Seq<char>,
    l3: Seq<char>,
    l4: Seq<char>,
    l5: Seq<char>,
)
    ensures
        terminated(
            opt_lines(b1, seq![Seq::<char>::empty(), l1]) + opt_lines(b2, seq![l2]) + opt_lines(b3, seq![l3])
                + opt_lines(b4, seq![l4]) + opt_lines(b5, seq![l5]),
        ) == opt_text(b1, seq!['\n'] + l1 + seq!['\n']) + opt_text(b2, l2 + seq!['\n']) + opt_text(
            b3,
            l3 + seq!['\n'],
        ) + opt_text(b4, l4 + seq!['\n']) + opt_text(b5, l5 + seq!['\n']),
{
    let nl = seq!['\n'];
    let g = opt_lines(b1, seq![Seq::<char>::empty(), l1]);
    let py = opt_lines(b2, seq![l2]);
    let a = opt_lines(b3, seq![l3]);
    let i = opt_lines(b4, seq![l4]);
    let m = opt_lines(b5, seq![l5]);
    lemma_terminated_two(Seq::<char>::empty(), l1);
    assert(Seq::<char>::empty() + nl + l1 + nl =~= nl + l1 + nl);
    lemma_terminated_one(l2);
    lemma_terminated_one(l3);
    lemma_terminated_one(l4);
    lemma_terminated_one(l5);
    lemma_opt_terminated(b1, seq![Seq::<char>::empty(), l1]);
    lemma_opt_terminated(b2, seq![l2]);
    lemma_opt_terminated(b3, seq![l3]);
    lemma_opt_terminated(b4, seq![l4]);
    lemma_opt_terminated(b5, seq![l5]);
    lemma_terminated_concat(g, py);
    lemma_terminated_concat(g + py, a);
    lemma_terminated_concat(g + py + a, i);
    lemma_terminated_concat(g + py + a + i, m);
}

proof fn lemma_finish_lines_text(st: Migration, p: Platform)
    ensures
        terminated(finish_lines(st, p)) == finish_text(st, p),
{
    lemma_finish_lines_chain(
        !st.found_git,
        !st.found_python,
        !st.found_adb,
        !st.found_install,
        !st.found_update_method,
        "GitExecutable: "@ + git_config_path(p),
        "PythonExecutable: "@ + python_config_path(p),
        "AdbExecutable: "@ + adb_config_path(p),
        "InstallDependencies: true"@,
        "    UpdateMethod: manual"@,
    );
}

/// The migration state after `ls` read from `st`.
pub open spec fn run_from(st: Migration, ls: Seq<Seq<char>>, has_method: bool, p: Platform) -> Migration
    decreases ls.len(),
{
    if ls.len() == 0 {
        st
    } else {
        migrate_line(run_from(st, ls.drop_last(), has_method, p), ls.last(), has_method, p)
    }
}

proof fn lemma_run_from_start(ls: Seq<Seq<char>>, has_method: bool, p: Platform)
    ensures
        run_from(migration_start(), ls, has_method, p) == migrate_lines(ls, has_method, p),
    decreases ls.len(),
{
    if ls.len() > 0 {
        lemma_run_from_start(ls.drop_last(), has_method, p);
    }
}

proof fn lemma_run_from_concat(st: Migration, a: Seq<Seq<char>>, b: Seq<Seq<char>>, has_method: bool, p: Platform)
    ensures
        run_from(st, a + b, has_method, p) == run_from(run_from(st, a, has_method, p), b, has_method, p),
    decreases b.len(),
{
    if b.len() == 0 {
        assert(a + b =~= a);
    } else {
        assert((a + b).drop_last() =~= a + b.drop_last());
        assert((a + b).last() == b.last());
        lemma_run_from_concat(st, a, b.drop_last(), has_method, p);
    }
}

/// Two migration states that agree on everything the migration decides by.
pub open spec fn same_flags(a: Migration, b: Migration) -> bool {
    &&& a.found_python == b.found_python
    &&& a.found_adb == b.found_adb
    &&& a.found_git == b.found_git
    &&& a.found_install == b.found_install
    &&& a.found_update_method == b.found_update_method
    &&& a.in_update_section == b.in_update_section
}

proof fn lemma_not_starts(s: Seq<char>, pre: Seq<char>, k: int)
    requires
        0 <= k < pre.len(),
        k < s.len(),
        s[k] != pre[k],
    ensures
        !starts_with(s, pre),
{
    if starts_with(s, pre) {
        assert(s.take(pre.len() as int)[k] == s[k]);
    }
}

proof fn lemma_starts(pre: Seq<char>, v: Seq<char>)
    ensures
        starts_with(pre + v, pre),
{
    assert((pre + v).take(pre.len() as int) =~= pre);
}

/// A line of white space, then text that does not start with white space.
proof fn lemma_key_line(ind: Seq<char>, kv: Seq<char>)
    requires
        forall|j: int| 0 <= j < ind.len() ==> crate::text::is_ws(#[trigger] ind[j]),
        kv.len() > 0,
        !crate::text::is_ws(kv[0]),
    ensures
        indent_of(ind + kv) == ind,
        trim_start(ind + kv) == kv,
{
    let x = ind + kv;
    assert forall|j: int| 0 <= j < ind.len() implies crate::text::is_ws(#[trigger] x[j]) by {
        assert(x[j] == ind[j]);
    }
    assert(x[ind.len() as int] == kv[0]);
    crate::text::lemma_lead_ws_at(x, ind.len() as int);
    assert(x.take(ind.len() as int) =~= ind);
    assert(x.skip(ind.len() as int) =~= kv);
}

/// The configuration keys, by their characters.
proof fn lemma_keys()
    ensures
        "Update:"@.len() == 7 && "Update:"@[0] == 'U' && "Update:"@[6] == ':',
        "RequirementsFile:"@.len() == 17 && "RequirementsFile:"@[0] == 'R',
        "UpdateMethod:"@.len() == 13 && "UpdateMethod:"@[0] == 'U',
        "PythonExecutable:"@.len() == 17 && "PythonExecutable:"@[0] == 'P',
        "AdbExecutable:"@.len() == 14 && "AdbExecutable:"@[0] == 'A' && "AdbExecutable:"@[1] == 'd',
        "GitExecutable:"@.len() == 14 && "GitExecutable:"@[0] == 'G',
        "InstallDependencies:"@.len() == 20 && "InstallDependencies:"@[0] == 'I',
        "AutoRestartTime:"@.len() == 16 && "AutoRestartTime:"@[0] == 'A' && "AutoRestartTime:"@[1] == 'u',
        ":"@.len() == 1 && ":"@[0] == ':',
        "PythonExecutable: "@ == "PythonExecutable:"@ + " "@,
        "AdbExecutable: "@ == "AdbExecutable:"@ + " "@,
        "GitExecutable: "@ == "GitExecutable:"@ + " "@,
        "InstallDependencies: true"@ == "InstallDependencies:"@ + " true"@,
        "UpdateMethod: manual"@ == "UpdateMethod:"@ + " manual"@,
        "UpdateMethod: manual"@[6] == 'M',
        " true"@.last() == 'e',
        " manual"@.last() == 'l',
        "InstallDependencies: true"@.len() == 25 && "InstallDependencies: true"@.last() == 'e',
        "UpdateMethod: manual"@.len() == 20 && "UpdateMethod: manual"@.last() == 'l',
{
    reveal_strlit("Update:");
    reveal_strlit("RequirementsFile:");
    reveal_strlit("UpdateMethod:");
    reveal_strlit("PythonExecutable:");
    reveal_strlit("AdbExecutable:");
    reveal_strlit("GitExecutable:");
    reveal_strlit("InstallDependencies:");
    reveal_strlit("AutoRestartTime:");
    reveal_strlit(":");
    reveal_strlit("PythonExecutable: ");
    reveal_strlit("AdbExecutable: ");
    reveal_strlit("GitExecutable: ");
    reveal_strlit("InstallDependencies: true");
    reveal_strlit("UpdateMethod: manual");
    reveal_strlit(" ");
    reveal_strlit(" true");
    reveal_strlit(" manual");
    assert("PythonExecutable: "@ =~= "PythonExecutable:"@ + " "@);
    assert("AdbExecutable: "@ =~= "AdbExecutable:"@ + " "@);
    assert("GitExecutable: "@ =~= "GitExecutable:"@ + " "@);
    assert("InstallDependencies: true"@ =~= "InstallDependencies:"@ + " true"@);
    assert("UpdateMethod: manual"@ =~= "UpdateMethod:"@ + " manual"@);
}

/// The tool paths end in a letter.
proof fn lemma_paths(p: Platform)
    ensures
        python_config_path(p).len() > 0 && python_config_path(p).last() != ':',
        adb_config_path(p).len() > 0 && adb_config_path(p).last() != ':',
        git_config_path(p).len() > 0 && git_config_path(p).last() != ':',
        !python_config_path(p).contains('\n') && !python_config_path(p).contains('\r'),
        !adb_config_path(p).contains('\n') && !adb_config_path(p).contains('\r'),
        !git_config_path(p).contains('\n') && !git_config_path(p).contains('\r'),
{
    reveal_strlit("./.venv/Scripts/python.exe");
    reveal_strlit("./.venv/bin/python");
    reveal_strlit("./.venv/Scripts/adb.exe");
    reveal_strlit("./.venv/bin/adb");
    reveal_strlit("./.venv/Scripts/git/cmd/git.exe");
    reveal_strlit("./.venv/bin/git");
}

proof fn lemma_run_one(st: Migration, x: Seq<char>, has_method: bool, p: Platform)
    ensures
        run_from(st, seq![x], has_method, p) == migrate_line(st, x, has_method, p),
{
    assert(seq![x].drop_last() =~= Seq::<Seq<char>>::empty());
    assert(seq![x].last() == x);
    assert(run_from(st, Seq::<Seq<char>>::empty(), has_method, p) == st);
}

proof fn lemma_run_two(st: Migration, x: Seq<char>, y: Seq<char>, has_method: bool, p: Platform)
    ensures
        run_from(st, seq![x, y], has_method, p) == migrate_line(migrate_line(st, x, has_method, p), y, has_method, p),
{
    assert(seq![x, y].drop_last() =~= seq![x]);
    assert(seq![x, y].last() == y);
    lemma_run_one(st, x, has_method, p);
}

/// A setting the migration wrote, read again by the migration from a state
/// that agrees with the first, is written again unchanged: `key` is one of
/// the tool settings and `kv` the setting without its indentation.
proof fn lemma_second_pass_setting(st: Migration, ind: Seq<char>, key: Seq<char>, rest: Seq<char>, p: Platform)
    requires
        forall|j: int| 0 <= j < ind.len() ==> crate::text::is_ws(#[trigger] ind[j]),
        key == "PythonExecutable:"@ || key == "AdbExecutable:"@ || key == "GitExecutable:"@,
        rest.len() > 0,
        rest.last() != ':',
    ensures
        ({
            let x = ind + key + rest;
            let r = migrate_line(st, x, true, p);
            &&& key == "PythonExecutable:"@ ==> r == (Migration {
                found_python: true,
                changed: true,
                out: st.out + ind + "PythonExecutable: "@ + python_config_path(p) + seq!['\n'],
                ..st
            })
            &&& key == "AdbExecutable:"@ ==> r == (Migration {
                found_adb: true,
                changed: true,
                out: st.out + ind + "AdbExecutable: "@ + adb_config_path(p) + seq!['\n'],
                ..st
            })
            &&& key == "GitExecutable:"@ ==> r == (Migration {
                found_git: true,
                changed: true,
                out: st.out + ind + "GitExecutable: "@ + git_config_path(p) + seq!['\n'],
                ..st
            })
        }),
{
    lemma_keys();
    let kv = key + rest;
    let x = ind + key + rest;
    assert(x =~= ind + kv);
    assert(kv[0] == key[0]);
    lemma_key_line(ind, kv);
    assert(!starts_with(kv, "Update:"@)) by {
        lemma_not_starts(kv, "Update:"@, 0);
    }
    assert(!ends_with(kv, ":"@)) by {
        if ends_with(kv, ":"@) {
            assert(kv.skip(kv.len() - 1)[0] == kv.last());
            assert(kv.last() == rest.last());
        }
    }
    assert(!starts_with(kv, "RequirementsFile:"@)) by {
        lemma_not_starts(kv, "RequirementsFile:"@, 0);
    }
    assert(!starts_with(kv, "UpdateMethod:"@)) by {
        lemma_not_starts(kv, "UpdateMethod:"@, 0);
    }
    lemma_starts(key, rest);
    if key == "AdbExecutable:"@ || key == "GitExecutable:"@ {
        lemma_not_starts(kv, "PythonExecutable:"@, 0);
    }
    if key == "GitExecutable:"@ {
        lemma_not_starts(kv, "AdbExecutable:"@, 0);
    }
}

proof fn lemma_second_pass_install(st: Migration, ind: Seq<char>, p: Platform)
    requires
        forall|j: int| 0 <= j < ind.len() ==> crate::text::is_ws(#[trigger] ind[j]),
    ensures
        migrate_line(st, ind + "InstallDependencies: true"@, true, p) == (Migration {
            found_install: true,
            out: st.out + ind + "InstallDependencies: true"@ + seq!['\n'],
            ..st
        }),
{
    lemma_keys();
    let kv = "InstallDependencies: true"@;
    let x = ind + kv;
    assert(kv[0] == 'I');
    lemma_key_line(ind, kv);
    assert(kv.last() == 'e');
    lemma_not_starts(kv, "Update:"@, 0);
    assert(!ends_with(kv, ":"@)) by {
        if ends_with(kv, ":"@) {
            assert(kv.skip(kv.len() - 1)[0] == kv.last());
        }
    }
    lemma_not_starts(kv, "RequirementsFile:"@, 0);
    lemma_not_starts(kv, "UpdateMethod:"@, 0);
    lemma_not_starts(kv, "PythonExecutable:"@, 0);
    lemma_not_starts(kv, "AdbExecutable:"@, 0);
    lemma_not_starts(kv, "GitExecutable:"@, 0);
    lemma_starts("InstallDependencies:"@, " true"@);
    crate::text::lemma_trail_ws_at(kv, 0);
    assert(kv.take(kv.len() - 0) =~= kv);
    assert(trim(x) == kv);
    assert(starts_with(trim_start(x), "InstallDependencies:"@));
    assert(st.out + x + seq!['\n'] =~= st.out + ind + kv + seq!['\n']);
    let r = migrate_line(st, x, true, p);
    assert(r.out == st.out + x + seq!['\n']);
    assert(r.found_install);
}

proof fn lemma_second_pass_method(st: Migration, ind: Seq<char>, p: Platform)
    requires
        forall|j: int| 0 <= j < ind.len() ==> crate::text::is_ws(#[trigger] ind[j]),
    ensures
        migrate_line(st, ind + "UpdateMethod: manual"@, true, p) == (Migration {
            found_update_method: true,
            out: st.out + (ind + "UpdateMethod: manual"@) + seq!['\n'],
            ..st
        }),
{
    lemma_keys();
    let kv = "UpdateMethod: manual"@;
    let x = ind + kv;
    assert(kv[0] == 'U');
    lemma_key_line(ind, kv);
    assert(kv.last() == 'l');
    lemma_not_starts(kv, "Update:"@, 6);
    assert(!ends_with(kv, ":"@)) by {
        if ends_with(kv, ":"@) {
            assert(kv.skip(kv.len() - 1)[0] == kv.last());
        }
    }
    lemma_not_starts(kv, "RequirementsFile:"@, 0);
    lemma_starts("UpdateMethod:"@, " manual"@);
}

#[verifier::rlimit(100)]
proof fn lemma_second_pass_line_a(s1: Migration, s2: Migration, l: Seq<char>, hm1: bool, p: Platform)
    requires
        same_flags(s1, s2),
        starts_with(trim_start(l), "Update:"@) || s1.in_update_section && utf8_size(indent_of(l)) <= 2 && ends_with(trim_start(l), ":"@) || starts_with(trim_start(l), "RequirementsFile:"@) || starts_with(trim_start(l), "UpdateMethod:"@),
    ensures
        same_flags(migrate_line(s1, l, hm1, p), run_from(s2, emitted(s1, l, hm1, p), true, p)),
        run_from(s2, emitted(s1, l, hm1, p), true, p).out == s2.out + terminated(emitted(s1, l, hm1, p)),
{
    lemma_keys();
    lemma_paths(p);
    crate::text::lemma_lead_ws_bound(l);
    let ind = indent_of(l);
    let t = trim_start(l);
    let e = emitted(s1, l, hm1, p);
    let nl = seq!['\n'];
    assert(terminated(Seq::<Seq<char>>::empty()) == Seq::<char>::empty());
    assert(run_from(s2, Seq::<Seq<char>>::empty(), true, p) == s2);
    assert forall|j: int| 0 <= j < ind.len() implies crate::text::is_ws(#[trigger] ind[j]) by {
        assert(ind[j] == l[j]);
    }
    if starts_with(t, "RequirementsFile:"@) && !starts_with(t, "Update:"@) && !(s1.in_update_section && utf8_size(ind) <= 2 && ends_with(t, ":"@)) {
        assert(e =~= Seq::<Seq<char>>::empty());
        assert(s2.out + Seq::<char>::empty() =~= s2.out);
    } else {
        lemma_run_one(s2, l, true, p);
        lemma_terminated_one(l);
    }
}

#[verifier::rlimit(100)]
proof fn lemma_second_pass_line_b(s1: Migration, s2: Migration, l: Seq<char>, hm1: bool, p: Platform)
    requires
        same_flags(s1, s2),
        !(starts_with(trim_start(l), "Update:"@) || s1.in_update_section && utf8_size(indent_of(l)) <= 2 && ends_with(trim_start(l), ":"@) || starts_with(trim_start(l), "RequirementsFile:"@) || starts_with(trim_start(l), "UpdateMethod:"@)),
        starts_with(trim_start(l), "PythonExecutable:"@) || starts_with(trim_start(l), "AdbExecutable:"@) || starts_with(trim_start(l), "GitExecutable:"@),
    ensures
        same_flags(migrate_line(s1, l, hm1, p), run_from(s2, emitted(s1, l, hm1, p), true, p)),
        run_from(s2, emitted(s1, l, hm1, p), true, p).out == s2.out + terminated(emitted(s1, l, hm1, p)),
{
    lemma_keys();
    lemma_paths(p);
    crate::text::lemma_lead_ws_bound(l);
    let ind = indent_of(l);
    let t = trim_start(l);
    let e = emitted(s1, l, hm1, p);
    let nl = seq!['\n'];
    assert(terminated(Seq::<Seq<char>>::empty()) == Seq::<char>::empty());
    assert(run_from(s2, Seq::<Seq<char>>::empty(), true, p) == s2);
    assert forall|j: int| 0 <= j < ind.len() implies crate::text::is_ws(#[trigger] ind[j]) by {
        assert(ind[j] == l[j]);
    }
    if starts_with(t, "PythonExecutable:"@) {
        let x = ind + "PythonExecutable: "@ + python_config_path(p);
        let rest = " "@ + python_config_path(p);
        assert(rest.last() == python_config_path(p).last());
        assert(x =~= ind + "PythonExecutable:"@ + rest);
        lemma_second_pass_setting(s2, ind, "PythonExecutable:"@, rest, p);
        lemma_run_one(s2, x, true, p);
        lemma_terminated_one(x);
        assert(s2.out + ind + "PythonExecutable: "@ + python_config_path(p) + nl =~= s2.out + (x + nl));
    } else if starts_with(t, "AdbExecutable:"@) {
        let x = ind + "AdbExecutable: "@ + adb_config_path(p);
        let rest = " "@ + adb_config_path(p);
        assert(rest.last() == adb_config_path(p).last());
        assert(x =~= ind + "AdbExecutable:"@ + rest);
        lemma_second_pass_setting(s2, ind, "AdbExecutable:"@, rest, p);
        lemma_run_one(s2, x, true, p);
        lemma_terminated_one(x);
        assert(s2.out + ind + "AdbExecutable: "@ + adb_config_path(p) + nl =~= s2.out + (x + nl));
    } else {
        let x = ind + "GitExecutable: "@ + git_config_path(p);
        let rest = " "@ + git_config_path(p);
        assert(rest.last() == git_config_path(p).last());
        assert(x =~= ind + "GitExecutable:"@ + rest);
        lemma_second_pass_setting(s2, ind, "GitExecutable:"@, rest, p);
        lemma_run_one(s2, x, true, p);
        lemma_terminated_one(x);
        assert(s2.out + ind + "GitExecutable: "@ + git_config_path(p) + nl =~= s2.out + (x + nl));
    }
}

#[verifier::rlimit(100)]
proof fn lemma_second_pass_line_c(s1: Migration, s2: Migration, l: Seq<char>, hm1: bool, p: Platform)
    requires
        same_flags(s1, s2),
        !(starts_with(trim_start(l), "Update:"@) || s1.in_update_section && utf8_size(indent_of(l)) <= 2 && ends_with(trim_start(l), ":"@) || starts_with(trim_start(l), "RequirementsFile:"@) || starts_with(trim_start(l), "UpdateMethod:"@) || starts_with(trim_start(l), "PythonExecutable:"@) || starts_with(trim_start(l), "AdbExecutable:"@) || starts_with(trim_start(l), "GitExecutable:"@)),
    ensures
        same_flags(migrate_line(s1, l, hm1, p), run_from(s2, emitted(s1, l, hm1, p), true, p)),
        run_from(s2, emitted(s1, l, hm1, p), true, p).out == s2.out + terminated(emitted(s1, l, hm1, p)),
{
    lemma_keys();
    lemma_paths(p);
    crate::text::lemma_lead_ws_bound(l);
    let ind = indent_of(l);
    let t = trim_start(l);
    let e = emitted(s1, l, hm1, p);
    let nl = seq!['\n'];
    assert(terminated(Seq::<Seq<char>>::empty()) == Seq::<char>::empty());
    assert(run_from(s2, Seq::<Seq<char>>::empty(), true, p) == s2);
    assert forall|j: int| 0 <= j < ind.len() implies crate::text::is_ws(#[trigger] ind[j]) by {
        assert(ind[j] == l[j]);
    }
    if starts_with(t, "InstallDependencies:"@) {
        if trim(l) != "InstallDependencies: true"@ {
            let x = ind + "InstallDependencies: true"@;
            lemma_second_pass_install(s2, ind, p);
            lemma_run_one(s2, x, true, p);
            lemma_terminated_one(x);
        } else {
            lemma_run_one(s2, l, true, p);
            lemma_terminated_one(l);
        }
    } else if starts_with(t, "AutoRestartTime:"@) {
        if !hm1 && !s1.found_update_method {
            let y = ind + "UpdateMethod: manual"@;
            lemma_run_two(s2, l, y, true, p);
            let s2a = migrate_line(s2, l, true, p);
            assert(s2a == Migration { out: s2.out + l + nl, ..s2 });
            lemma_second_pass_method(s2a, ind, p);
            lemma_terminated_two(l, y);
            assert(s2.out + l + nl + y + nl =~= s2.out + (l + nl + y + nl));
        } else {
            lemma_run_one(s2, l, true, p);
            lemma_terminated_one(l);
        }
    } else {
        lemma_run_one(s2, l, true, p);
        lemma_terminated_one(l);
    }
}

/// One line of the configuration: reading what the migration wrote for it
/// again, from a state that agrees with the first, writes the same and
/// leaves a state that agrees again.
proof fn lemma_second_pass_line(s1: Migration, s2: Migration, l: Seq<char>, hm1: bool, p: Platform)
    requires
        same_flags(s1, s2),
    ensures
        same_flags(migrate_line(s1, l, hm1, p), run_from(s2, emitted(s1, l, hm1, p), true, p)),
        run_from(s2, emitted(s1, l, hm1, p), true, p).out == s2.out + terminated(emitted(s1, l, hm1, p)),
{
    if starts_with(trim_start(l), "Update:"@) || s1.in_update_section && utf8_size(indent_of(l)) <= 2 && ends_with(trim_start(l), ":"@) || starts_with(trim_start(l), "RequirementsFile:"@) || starts_with(trim_start(l), "UpdateMethod:"@) {
        lemma_second_pass_line_a(s1, s2, l, hm1, p);
    } else if starts_with(trim_start(l), "PythonExecutable:"@) || starts_with(trim_start(l), "AdbExecutable:"@) || starts_with(trim_start(l), "GitExecutable:"@) {
        lemma_second_pass_line_b(s1, s2, l, hm1, p);
    } else {
        lemma_second_pass_line_c(s1, s2, l, hm1, p);
    }
}

proof fn lemma_second_pass_body(ls: Seq<Seq<char>>, hm1: bool, p: Platform)
    ensures
        same_flags(
            migrate_lines(ls, hm1, p),
            run_from(migration_start(), body_lines(ls, hm1, p), true, p),
        ),
        run_from(migration_start(), body_lines(ls, hm1, p), true, p).out == terminated(
            body_lines(ls, hm1, p),
        ),
    decreases ls.len(),
{
    if ls.len() == 0 {
        assert(body_lines(ls, hm1, p) == Seq::<Seq<char>>::empty());
        assert(run_from(migration_start(), Seq::<Seq<char>>::empty(), true, p) == migration_start());
        assert(terminated(Seq::<Seq<char>>::empty()) == Seq::<char>::empty());
    } else {
        let l0 = ls.drop_last();
        lemma_second_pass_body(l0, hm1, p);
        let s1 = migrate_lines(l0, hm1, p);
        let b0 = body_lines(l0, hm1, p);
        let s2 = run_from(migration_start(), b0, true, p);
        let e = emitted(s1, ls.last(), hm1, p);
        lemma_run_from_concat(migration_start(), b0, e, true, p);
        lemma_second_pass_line(s1, s2, ls.last(), hm1, p);
        lemma_terminated_concat(b0, e);
    }
}

proof fn lemma_empty_line(st: Migration, p: Platform)
    ensures
        migrate_line(st, Seq::<char>::empty(), true, p) == (Migration {
            out: st.out + Seq::<char>::empty() + seq!['\n'],
            ..st
        }),
{
    let l = Seq::<char>::empty();
    assert(lead_ws(l) == 0);
    assert(trim_start(l) =~= l);
    lemma_keys();
    assert(!ends_with(l, ":"@));
}

pub open spec fn keeps_flags_but(a: Migration, b: Migration, which: int) -> bool {
    &&& (which != 0 ==> a.found_git == b.found_git)
    &&& (which != 1 ==> a.found_python == b.found_python)
    &&& (which != 2 ==> a.found_adb == b.found_adb)
    &&& (which != 3 ==> a.found_install == b.found_install)
    &&& (which != 4 ==> a.found_update_method == b.found_update_method)
}

proof fn lemma_chunk_git(st: Migration, b: bool, p: Platform)
    ensures
        ({
            let g = opt_lines(b, seq![Seq::<char>::empty(), "GitExecutable: "@ + git_config_path(p)]);
            let r = run_from(st, g, true, p);
            &&& r.out == st.out + terminated(g)
            &&& r.found_git == (st.found_git || b)
            &&& keeps_flags_but(r, st, 0)
        }),
{
    lemma_keys();
    lemma_paths(p);
    let nl = seq!['\n'];
    let e = Seq::<char>::empty();
    let gl = "GitExecutable: "@ + git_config_path(p);
    assert(terminated(Seq::<Seq<char>>::empty()) == Seq::<char>::empty());
    assert(run_from(st, Seq::<Seq<char>>::empty(), true, p) == st);
    if b {
        lemma_run_two(st, e, gl, true, p);
        lemma_empty_line(st, p);
        let sa = migrate_line(st, e, true, p);
        let rest = " "@ + git_config_path(p);
        assert(rest.last() == git_config_path(p).last());
        assert(e + "GitExecutable:"@ + rest =~= gl);
        lemma_second_pass_setting(sa, e, "GitExecutable:"@, rest, p);
        lemma_terminated_two(e, gl);
        assert(st.out + e + nl + (e + "GitExecutable: "@ + git_config_path(p)) + nl =~= st.out + (e + nl + gl + nl));
    } else {
        assert(st.out + Seq::<char>::empty() =~= st.out);
    }
}

proof fn lemma_chunk_python(st: Migration, b: bool, p: Platform)
    ensures
        ({
            let g = opt_lines(b, seq!["PythonExecutable: "@ + python_config_path(p)]);
            let r = run_from(st, g, true, p);
            &&& r.out == st.out + terminated(g)
            &&& r.found_python == (st.found_python || b)
            &&& keeps_flags_but(r, st, 1)
        }),
{
    lemma_keys();
    lemma_paths(p);
    let nl = seq!['\n'];
    let e = Seq::<char>::empty();
    let pl = "PythonExecutable: "@ + python_config_path(p);
    assert(terminated(Seq::<Seq<char>>::empty()) == Seq::<char>::empty());
    assert(run_from(st, Seq::<Seq<char>>::empty(), true, p) == st);
    if b {
        lemma_run_one(st, pl, true, p);
        let rest = " "@ + python_config_path(p);
        assert(rest.last() == python_config_path(p).last());
        assert(e + "PythonExecutable:"@ + rest =~= pl);
        lemma_second_pass_setting(st, e, "PythonExecutable:"@, rest, p);
        lemma_terminated_one(pl);
        assert(st.out + e + "PythonExecutable: "@ + python_config_path(p) + nl =~= st.out + (pl + nl));
    } else {
        assert(st.out + Seq::<char>::empty() =~= st.out);
    }
}

proof fn lemma_chunk_adb(st: Migration, b: bool, p: Platform)
    ensures
        ({
            let g = opt_lines(b, seq!["AdbExecutable: "@ + adb_config_path(p)]);
            let r = run_from(st, g, true, p);
            &&& r.out == st.out + terminated(g)
            &&& r.found_adb == (st.found_adb || b)
            &&& keeps_flags_but(r, st, 2)
        }),
{
    lemma_keys();
    lemma_paths(p);
    let nl = seq!['\n'];
    let e = Seq::<char>::empty();
    let al = "AdbExecutable: "@ + adb_config_path(p);
    assert(terminated(Seq::<Seq<char>>::empty()) == Seq::<char>::empty());
    assert(run_from(st, Seq::<Seq<char>>::empty(), true, p) == st);
    if b {
        lemma_run_one(st, al, true, p);
        let rest = " "@ + adb_config_path(p);
        assert(rest.last() == adb_config_path(p).last());
        assert(e + "AdbExecutable:"@ + rest =~= al);
        lemma_second_pass_setting(st, e, "AdbExecutable:"@, rest, p);
        lemma_terminated_one(al);
        assert(st.out + e + "AdbExecutable: "@ + adb_config_path(p) + nl =~= st.out + (al + nl));
    } else {
        assert(st.out + Seq::<char>::empty() =~= st.out);
    }
}

proof fn lemma_chunk_install(st: Migration, b: bool, p: Platform)
    ensures
        ({
            let g = opt_lines(b, seq!["InstallDependencies: true"@]);
            let r = run_from(st, g, true, p);
            &&& r.out == st.out + terminated(g)
            &&& r.found_install == (st.found_install || b)
            &&& keeps_flags_but(r, st, 3)
        }),
{
    let nl = seq!['\n'];
    let e = Seq::<char>::empty();
    let il = "InstallDependencies: true"@;
    assert(terminated(Seq::<Seq<char>>::empty()) == Seq::<char>::empty());
    assert(run_from(st, Seq::<Seq<char>>::empty(), true, p) == st);
    if b {
        lemma_run_one(st, il, true, p);
        assert(e + il =~= il);
        lemma_second_pass_install(st, e, p);
        lemma_terminated_one(il);
        assert(st.out + e + il + nl =~= st.out + (il + nl));
    } else {
        assert(st.out + Seq::<char>::empty() =~= st.out);
    }
}

proof fn lemma_chunk_method(st: Migration, b: bool, p: Platform)
    ensures
        ({
            let g = opt_lines(b, seq!["    UpdateMethod: manual"@]);
            let r = run_from(st, g, true, p);
            &&& r.out == st.out + terminated(g)
            &&& r.found_update_method == (st.found_update_method || b)
            &&& keeps_flags_but(r, st, 4)
        }),
{
    let ml = "    UpdateMethod: manual"@;
    assert(terminated(Seq::<Seq<char>>::empty()) == Seq::<char>::empty());
    assert(run_from(st, Seq::<Seq<char>>::empty(), true, p) == st);
    if b {
        lemma_run_one(st, ml, true, p);
        reveal_strlit("    ");
        reveal_strlit("    UpdateMethod: manual");
        reveal_strlit("UpdateMethod: manual");
        let four = "    "@;
        assert(four + "UpdateMethod: manual"@ =~= ml);
        assert forall|j: int| 0 <= j < four.len() implies crate::text::is_ws(#[trigger] four[j]) by {}
        lemma_second_pass_method(st, four, p);
        lemma_terminated_one(ml);
    } else {
        assert(st.out + Seq::<char>::empty() =~= st.out);
    }
}

/// Reading the finishing lines again from a state that agrees with the
/// first writes them again and finds every setting.
proof fn lemma_second_pass_finish(s1: Migration, s2: Migration, p: Platform)
    requires
        same_flags(s1, s2),
    ensures
        run_from(s2, finish_lines(s1, p), true, p).out == s2.out + terminated(finish_lines(s1, p)),
        run_from(s2, finish_lines(s1, p), true, p).found_python,
        run_from(s2, finish_lines(s1, p), true, p).found_adb,
        run_from(s2, finish_lines(s1, p), true, p).found_git,
        run_from(s2, finish_lines(s1, p), true, p).found_install,
        run_from(s2, finish_lines(s1, p), true, p).found_update_method,
{
    let g = opt_lines(!s1.found_git, seq![Seq::<char>::empty(), "GitExecutable: "@ + git_config_path(p)]);
    let py = opt_lines(!s1.found_python, seq!["PythonExecutable: "@ + python_config_path(p)]);
    let a = opt_lines(!s1.found_adb, seq!["AdbExecutable: "@ + adb_config_path(p)]);
    let i = opt_lines(!s1.found_install, seq!["InstallDependencies: true"@]);
    let m = opt_lines(!s1.found_update_method, seq!["    UpdateMethod: manual"@]);
    assert(finish_lines(s1, p) == g + py + a + i + m);
    lemma_chunk_git(s2, !s1.found_git, p);
    let r1 = run_from(s2, g, true, p);
    lemma_chunk_python(r1, !s1.found_python, p);
    let r2 = run_from(r1, py, true, p);
    lemma_chunk_adb(r2, !s1.found_adb, p);
    let r3 = run_from(r2, a, true, p);
    lemma_chunk_install(r3, !s1.found_install, p);
    let r4 = run_from(r3, i, true, p);
    lemma_chunk_method(r4, !s1.found_update_method, p);
    let r5 = run_from(r4, m, true, p);
    lemma_run_from_concat(s2, g, py, true, p);
    lemma_run_from_concat(s2, g + py, a, true, p);
    lemma_run_from_concat(s2, g + py + a, i, true, p);
    lemma_run_from_concat(s2, g + py + a + i, m, true, p);
    lemma_terminated_concat(g, py);
    lemma_terminated_concat(g + py, a);
    lemma_terminated_concat(g + py + a, i);
    lemma_terminated_concat(g + py + a + i, m);
    lemma_concat6(s2.out, terminated(g), terminated(py), terminated(a), terminated(i), terminated(m));
}

proof fn lemma_no_nl_concat(a: Seq<char>, b: Seq<char>)
    requires
        !a.contains('\n'),
        !b.contains('\n'),
    ensures
        !(a + b).contains('\n'),
{
    if (a + b).contains('\n') {
        let k = choose|k: int| 0 <= k < (a + b).len() && (a + b)[k] == '\n';
        if k < a.len() {
            assert(a[k] == '\n');
        } else {
            assert(b[k - a.len()] == '\n');
        }
    }
}

proof fn lemma_literals_plain()
    ensures
        !"PythonExecutable: "@.contains('\n'),
        !"AdbExecutable: "@.contains('\n'),
        !"GitExecutable: "@.contains('\n'),
        !"InstallDependencies: true"@.contains('\n'),
        !"UpdateMethod: manual"@.contains('\n'),
        !"    UpdateMethod: manual"@.contains('\n'),
{
    reveal_strlit("PythonExecutable: ");
    reveal_strlit("AdbExecutable: ");
    reveal_strlit("GitExecutable: ");
    reveal_strlit("InstallDependencies: true");
    reveal_strlit("UpdateMethod: manual");
    reveal_strlit("    UpdateMethod: manual");
}

/// The migration writes no line feed inside a line.
proof fn lemma_body_no_newlines(ls: Seq<Seq<char>>, hm: bool, p: Platform)
    requires
        no_newlines(ls),
    ensures
        no_newlines(body_lines(ls, hm, p)),
    decreases ls.len(),
{
    if ls.len() > 0 {
        let l0 = ls.drop_last();
        assert(no_newlines(l0)) by {
            assert forall|i: int| 0 <= i < l0.len() implies !(#[trigger] l0[i]).contains('\n') by {
                assert(l0[i] == ls[i]);
            }
        }
        lemma_body_no_newlines(l0, hm, p);
        let l = ls.last();
        assert(!l.contains('\n')) by {
            assert(ls[ls.len() - 1] == l);
        }
        let ind = indent_of(l);
        crate::text::lemma_lead_ws_bound(l);
        assert(!ind.contains('\n')) by {
            if ind.contains('\n') {
                let k = choose|k: int| 0 <= k < ind.len() && ind[k] == '\n';
                assert(l[k] == '\n');
            }
        }
        lemma_literals_plain();
        lemma_paths(p);
        lemma_no_nl_concat(ind, "PythonExecutable: "@);
        lemma_no_nl_concat(ind + "PythonExecutable: "@, python_config_path(p));
        lemma_no_nl_concat(ind, "AdbExecutable: "@);
        lemma_no_nl_concat(ind + "AdbExecutable: "@, adb_config_path(p));
        lemma_no_nl_concat(ind, "GitExecutable: "@);
        lemma_no_nl_concat(ind + "GitExecutable: "@, git_config_path(p));
        lemma_no_nl_concat(ind, "InstallDependencies: true"@);
        lemma_no_nl_concat(ind, "UpdateMethod: manual"@);
        let b0 = body_lines(l0, hm, p);
        let e = emitted(migrate_lines(l0, hm, p), l, hm, p);
        assert(no_newlines(e));
        assert forall|i: int| 0 <= i < (b0 + e).len() implies !(#[trigger] (b0 + e)[i]).contains('\n') by {
            if i < b0.len() {
                assert((b0 + e)[i] == b0[i]);
            } else {
                assert((b0 + e)[i] == e[i - b0.len()]);
            }
        }
    }
}

proof fn lemma_contains_left(a: Seq<char>, b: Seq<char>, q: Seq<char>)
    requires
        contains(a, q),
    ensures
        contains(a + b, q),
{
    let i = choose|i: int| occurs_at(a, q, i);
    assert((a + b).subrange(i, i + q.len()) =~= a.subrange(i, i + q.len()));
    assert(occurs_at(a + b, q, i));
}

proof fn lemma_contains_right(a: Seq<char>, b: Seq<char>, q: Seq<char>)
    requires
        contains(b, q),
    ensures
        contains(a + b, q),
{
    let i = choose|i: int| occurs_at(b, q, i);
    assert((a + b).subrange(a.len() + i, a.len() + i + q.len()) =~= b.subrange(i, i + q.len()));
    assert(occurs_at(a + b, q, a.len() + i));
}

/// A text that starts, after white space, with `q`.
proof fn lemma_contains_after_indent(x: Seq<char>, q: Seq<char>)
    requires
        starts_with(trim_start(x), q),
    ensures
        contains(x, q),
{
    crate::text::lemma_lead_ws_bound(x);
    let k = lead_ws(x) as int;
    assert(x.subrange(k, k + q.len()) =~= trim_start(x).take(q.len() as int));
    assert(occurs_at(x, q, k));
}

/// Once the migration has found an update method, its text holds one.
proof fn lemma_found_method_written(ls: Seq<Seq<char>>, hm: bool, p: Platform)
    ensures
        migrate_lines(ls, hm, p).found_update_method ==> contains(migrate_lines(ls, hm, p).out, "UpdateMethod:"@),
    decreases ls.len(),
{
    if ls.len() > 0 {
        let l0 = ls.drop_last();
        lemma_found_method_written(l0, hm, p);
        let st = migrate_lines(l0, hm, p);
        let l = ls.last();
        let r = migrate_line(st, l, hm, p);
        let nl = seq!['\n'];
        lemma_keys();
        if r.found_update_method {
            lemma_migrate_line_out(st, l, hm, p);
            let e = emitted(st, l, hm, p);
            if st.found_update_method {
                lemma_contains_left(st.out, terminated(e), "UpdateMethod:"@);
            } else {
                let t = trim_start(l);
                let ind = indent_of(l);
                crate::text::lemma_lead_ws_bound(l);
                if starts_with(t, "UpdateMethod:"@) && !starts_with(t, "Update:"@) && !(st.in_update_section && utf8_size(ind) <= 2 && ends_with(t, ":"@)) && !starts_with(t, "RequirementsFile:"@) {
                    lemma_contains_after_indent(l, "UpdateMethod:"@);
                    lemma_contains_left(l, nl, "UpdateMethod:"@);
                    lemma_terminated_one(l);
                    lemma_contains_right(st.out, l + nl, "UpdateMethod:"@);
                } else {
                    let y = ind + "UpdateMethod: manual"@;
                    assert(e == seq![l, y]);
                    assert forall|j: int| 0 <= j < ind.len() implies crate::text::is_ws(#[trigger] ind[j]) by {
                        assert(ind[j] == l[j]);
                    }
                    assert("UpdateMethod: manual"@[0] == 'U') by {
                        assert("UpdateMethod: manual"@ == "UpdateMethod:"@ + " manual"@);
                    }
                    lemma_key_line(ind, "UpdateMethod: manual"@);
                    lemma_starts("UpdateMethod:"@, " manual"@);
                    lemma_contains_after_indent(y, "UpdateMethod:"@);
                    lemma_contains_left(y, nl, "UpdateMethod:"@);
                    lemma_contains_right(l + nl, y + nl, "UpdateMethod:"@);
                    lemma_terminated_two(l, y);
                    assert(l + nl + y + nl =~= (l + nl) + (y + nl));
                    lemma_contains_right(st.out, terminated(e), "UpdateMethod:"@);
                }
            }
        }
    }
}

/// Text with a character that is not white space is not blank.
pub(crate) proof fn lemma_not_blank(x: Seq<char>, j: int)
    requires
        0 <= j < x.len(),
        !crate::text::is_ws(x[j]),
    ensures
        trim(x).len() > 0,
{
    crate::text::lemma_lead_ws_bound(x);
    let k = lead_ws(x) as int;
    let ts = trim_start(x);
    assert(k <= j);
    assert(ts[j - k] == x[j]);
    crate::text::lemma_trail_ws_bound(ts);
    assert(ts.len() - crate::text::trail_ws(ts) > j - k);
}

/// The lines the migration writes: its body, then its finishing lines.
pub open spec fn migrated_lines(ls: Seq<Seq<char>>, hm: bool, p: Platform) -> Seq<Seq<char>> {
    body_lines(ls, hm, p) + finish_lines(migrate_lines(ls, hm, p), p)
}

proof fn lemma_migrated_text(ls: Seq<Seq<char>>, hm: bool, p: Platform)
    ensures
        migrate_finish(migrate_lines(ls, hm, p), p).out == terminated(migrated_lines(ls, hm, p)),
{
    let s1 = migrate_lines(ls, hm, p);
    lemma_migrate_lines_out(ls, hm, p);
    lemma_finish_text(s1, p);
    lemma_finish_lines_text(s1, p);
    lemma_terminated_concat(body_lines(ls, hm, p), finish_lines(s1, p));
}

proof fn lemma_migrated_no_newlines(ls: Seq<Seq<char>>, hm: bool, p: Platform)
    requires
        no_newlines(ls),
    ensures
        no_newlines(migrated_lines(ls, hm, p)),
{
    let body = body_lines(ls, hm, p);
    let fin = finish_lines(migrate_lines(ls, hm, p), p);
    let xs = body + fin;
    lemma_body_no_newlines(ls, hm, p);
    lemma_paths(p);
    lemma_literals_plain();
    lemma_no_nl_concat("GitExecutable: "@, git_config_path(p));
    lemma_no_nl_concat("PythonExecutable: "@, python_config_path(p));
    lemma_no_nl_concat("AdbExecutable: "@, adb_config_path(p));
    assert(!Seq::<char>::empty().contains('\n'));
    assert(no_newlines(fin));
    assert forall|i: int| 0 <= i < xs.len() implies !(#[trigger] xs[i]).contains('\n') by {
        if i < body.len() {
            assert(xs[i] == body[i]);
        } else {
            assert(xs[i] == fin[i - body.len()]);
        }
    }
}

proof fn lemma_migrated_names_method(ls: Seq<Seq<char>>, hm: bool, p: Platform)
    ensures
        contains(migrate_finish(migrate_lines(ls, hm, p), p).out, "UpdateMethod:"@),
{
    let s1 = migrate_lines(ls, hm, p);
    lemma_finish_text(s1, p);
    lemma_found_method_written(ls, hm, p);
    if s1.found_update_method {
        lemma_contains_left(s1.out, finish_text(s1, p), "UpdateMethod:"@);
    } else {
        reveal_strlit("    UpdateMethod: manual");
        reveal_strlit("UpdateMethod:");
        let ml = "    UpdateMethod: manual"@;
        let nl = seq!['\n'];
        assert(occurs_at(ml, "UpdateMethod:"@, 4)) by {
            assert(ml.subrange(4, 17) =~= "UpdateMethod:"@);
        }
        lemma_contains_left(ml, nl, "UpdateMethod:"@);
        let t5 = opt_text(!s1.found_update_method, ml + nl);
        let front = opt_text(!s1.found_git, nl + "GitExecutable: "@ + git_config_path(p) + nl)
            + opt_text(!s1.found_python, "PythonExecutable: "@ + python_config_path(p) + nl)
            + opt_text(!s1.found_adb, "AdbExecutable: "@ + adb_config_path(p) + nl)
            + opt_text(!s1.found_install, "InstallDependencies: true"@ + nl);
        assert(finish_text(s1, p) == front + t5);
        lemma_contains_right(front, t5, "UpdateMethod:"@);
        lemma_contains_right(s1.out, finish_text(s1, p), "UpdateMethod:"@);
    }
}

proof fn lemma_second_pass_whole(ls: Seq<Seq<char>>, hm: bool, p: Platform)
    ensures
        migrate_finish(migrate_lines(migrated_lines(ls, hm, p), true, p), p).out == terminated(
            migrated_lines(ls, hm, p),
        ),
{
    let s1 = migrate_lines(ls, hm, p);
    let body = body_lines(ls, hm, p);
    let fin = finish_lines(s1, p);
    let xs = body + fin;
    lemma_run_from_start(xs, true, p);
    lemma_run_from_concat(migration_start(), body, fin, true, p);
    lemma_second_pass_body(ls, hm, p);
    let s2 = run_from(migration_start(), body, true, p);
    lemma_second_pass_finish(s1, s2, p);
    let r = run_from(s2, fin, true, p);
    lemma_finish_text(r, p);
    assert(finish_text(r, p) =~= Seq::<char>::empty());
    assert(r.out + Seq::<char>::empty() =~= r.out);
    lemma_terminated_concat(body, fin);
}

/// The migration is stable: migrating the text it wrote changes nothing,
/// unless that text has a line ending in a carriage return before its line
/// feed (reading the text again drops that `\r`). Whatever the defaults
/// given, since the migrated text is never blank.
pub proof fn lemma_migration_is_stable(c: Seq<char>, d: Seq<char>, d2: Seq<char>, p: Platform)
    requires
        !contains(migrated_config(c, d, p).0, "\r\n"@),
    ensures
        migrated_config(migrated_config(c, d, p).0, d2, p).0 == migrated_config(c, d, p).0,
{
    let c1 = if trim(c).len() == 0 {
        d
    } else {
        c
    };
    let hm1 = contains(c1, "UpdateMethod:"@);
    let ls = lines_of(c1);
    let xs = migrated_lines(ls, hm1, p);
    let out1 = migrate_finish(migrate_lines(ls, hm1, p), p).out;
    assert(out1 == migrated_config(c, d, p).0);
    lemma_migrated_text(ls, hm1, p);
    crate::text::lemma_lines_of_no_newline(c1);
    lemma_migrated_no_newlines(ls, hm1, p);
    assert forall|i: int| 0 <= i < xs.len() implies !ends_with_cr(#[trigger] xs[i]) by {
        if ends_with_cr(xs[i]) {
            lemma_cr_line_gives_crlf(xs, i);
        }
    }
    lemma_lines_of_terminated(xs);
    lemma_migrated_names_method(ls, hm1, p);
    let k = choose|k: int| occurs_at(out1, "UpdateMethod:"@, k);
    assert(occurs_at(out1, "UpdateMethod:"@, k));
    assert(0 <= k < out1.len() && out1[k] == 'U') by {
        reveal_strlit("UpdateMethod:");
        assert("UpdateMethod:"@.len() == 13);
        assert(out1.subrange(k, k + 13)[0] == out1[k]);
    }
    lemma_not_blank(out1, k);
    lemma_second_pass_whole(ls, hm1, p);
}

proof fn lemma_found_git_changed(ls: Seq<Seq<char>>, hm: bool, p: Platform)
    ensures
        migrate_lines(ls, hm, p).found_git ==> migrate_lines(ls, hm, p).changed,
    decreases ls.len(),
{
    if ls.len() > 0 {
        lemma_found_git_changed(ls.drop_last(), hm, p);
    }
}

/// A migration always rewrites the configuration file: it rewrites the
/// executable settings it finds, and adds those it does not.
pub proof fn lemma_migration_always_writes(c: Seq<char>, d: Seq<char>, p: Platform)
    ensures
        migrated_config(c, d, p).1,
{
    let c1 = if trim(c).len() == 0 {
        d
    } else {
        c
    };
    lemma_found_git_changed(lines_of(c1), contains(c1, "UpdateMethod:"@), p);
}

/// The configuration file after a migration of a file that held `file`
/// (empty when there was none): the migrated text when the migration asks
/// for a write, else the file as it was.
pub open spec fn deploy_file_after_migration(file: Seq<char>, default_config: Seq<char>, p: Platform) -> Seq<char> {
    if migrated_config(file, default_config, p).1 {
        migrated_config(file, default_config, p).0
    } else {
        file
    }
}

/// Migrating the configuration file a second time leaves it with exactly
/// the content the first migration left, whatever defaults are given; the
/// second run rewrites it with the same text. This holds unless that text
/// has a line ending in a carriage return before its line feed (reading
/// the text again drops that `\r`).
pub proof fn lemma_migrated_file_is_stable(c: Seq<char>, d: Seq<char>, d2: Seq<char>, p: Platform)
    requires
        !contains(deploy_file_after_migration(c, d, p), "\r\n"@),
    ensures
        deploy_file_after_migration(c, d, p) == migrated_config(c, d, p).0,
        migrated_config(deploy_file_after_migration(c, d, p), d2, p).1,
        deploy_file_after_migration(deploy_file_after_migration(c, d, p), d2, p)
            == deploy_file_after_migration(c, d, p),
{
    lemma_migration_always_writes(c, d, p);
    let n = migrated_config(c, d, p).0;
    lemma_migration_always_writes(n, d2, p);
    lemma_migration_is_stable(c, d, d2, p);
}

proof fn lemma_prefixes_agree(t: Seq<char>, a: Seq<char>, b: Seq<char>, k: int)
    requires
        starts_with(t, a),
        starts_with(t, b),
        0 <= k < a.len(),
        k < b.len(),
    ensures
        a[k] == b[k],
{
    assert(t.take(a.len() as int)[k] == t[k]);
    assert(t.take(b.len() as int)[k] == t[k]);
}

/// What the migration makes of one line that neither opens the `Update:`
/// section nor closes it: a `RequirementsFile` line is dropped; a line
/// that sets the Python, adb or git executable is rewritten, with its
/// indentation, to that program in `.venv`; an `InstallDependencies` line
/// ends up `true`; each of these marks the configuration as changed,
/// except an `InstallDependencies: true` line, which is kept as it is.
pub proof fn lemma_migrate_line_settings(st: Migration, line: Seq<char>, hm: bool, p: Platform)
    requires
        !starts_with(trim_start(line), "Update:"@),
        !(st.in_update_section && utf8_size(indent_of(line)) <= 2 && ends_with(trim_start(line), ":"@)),
    ensures
        ({
            let t = trim_start(line);
            let m = migrate_line(st, line, hm, p);
            let ind = indent_of(line);
            let nl = seq!['\n'];
            &&& starts_with(t, "RequirementsFile:"@) ==> m.out == st.out && m.changed
            &&& starts_with(t, "PythonExecutable:"@) ==> m.out == st.out + ind + "PythonExecutable: "@
                + python_config_path(p) + nl && m.found_python && m.changed
            &&& starts_with(t, "AdbExecutable:"@) ==> m.out == st.out + ind + "AdbExecutable: "@
                + adb_config_path(p) + nl && m.found_adb && m.changed
            &&& starts_with(t, "GitExecutable:"@) ==> m.out == st.out + ind + "GitExecutable: "@
                + git_config_path(p) + nl && m.found_git && m.changed
            &&& starts_with(t, "InstallDependencies:"@) ==> m.found_install && (if trim(line)
                == "InstallDependencies: true"@ {
                m.out == st.out + line + nl && m.changed == st.changed
            } else {
                m.out == st.out + ind + "InstallDependencies: true"@ + nl && m.changed
            })
        }),
{
    let t = trim_start(line);
    reveal_strlit("RequirementsFile:");
    reveal_strlit("UpdateMethod:");
    reveal_strlit("PythonExecutable:");
    reveal_strlit("AdbExecutable:");
    reveal_strlit("GitExecutable:");
    reveal_strlit("InstallDependencies:");
    let keys = seq![
        "RequirementsFile:"@,
        "UpdateMethod:"@,
        "PythonExecutable:"@,
        "AdbExecutable:"@,
        "GitExecutable:"@,
        "InstallDependencies:"@,
    ];
    assert forall|i: int, j: int|
        0 <= i < j < 6 && starts_with(t, #[trigger] keys[i]) implies !starts_with(t, #[trigger] keys[j]) by {
        if starts_with(t, keys[j]) {
            lemma_prefixes_agree(t, keys[i], keys[j], 0);
            lemma_prefixes_agree(t, keys[i], keys[j], 1);
        }
    }
    assert(keys[0] == "RequirementsFile:"@);
    assert(keys[1] == "UpdateMethod:"@);
    assert(keys[2] == "PythonExecutable:"@);
    assert(keys[3] == "AdbExecutable:"@);
    assert(keys[4] == "GitExecutable:"@);
    assert(keys[5] == "InstallDependencies:"@);
}

} // verus!
