//! The deploy configuration (`config/deploy.yaml`) as a tree of values, and
//! the settings the launcher reads from it.
use vstd::prelude::*;
use vstd::string::*;
use serde_json::Value;
use crate::text::{chars_of, eq_str, lower, lower_chars, parse_unsigned, parse_unsigned_chars, trim, trim_chars};

verus! {

/// One node of the deploy configuration, as the YAML document holds it.
/// Numbers, lists and maps also keep the compact JSON text that the
/// configuration library writes for them, which is what a setting that
/// expects text reads when it finds one of them.
pub enum DeployValue {
    Null,
    Bool(bool),
    Number { as_u64: Option<u64>, text: String },
    Text(String),
    Array { items: Vec<DeployValue>, text: String },
    Object { entries: Vec<(String, DeployValue)>, text: String },
}

#[verifier::external_type_specification]
#[verifier::external_body]
pub struct ExJsonValue(Value);

/// What `serde_yaml::from_str::<serde_json::Value>` reads from the text of
/// a configuration file, as a tree of `DeployValue` nodes; `None` when the
/// text is not a YAML document it reads. It depends on the text alone.
pub uninterp spec fn yaml_deploy_value(text: Seq<char>) -> Option<DeployValue>;

/// Converts a parsed JSON value into a `DeployValue`, node for node: the
/// same kind, the same text, items and entries in the same order, numbers
/// and nested values with their compact JSON text.
#[verifier::external_body]
fn deploy_value_of(value: &Value) -> DeployValue {
    match value {
        Value::Null => DeployValue::Null,
        Value::Bool(b) => DeployValue::Bool(*b),
        Value::Number(n) => DeployValue::Number { as_u64: n.as_u64(), text: n.to_string() },
        Value::String(s) => DeployValue::Text(s.clone()),
        Value::Array(a) => DeployValue::Array { items: a.iter().map(deploy_value_of).collect(), text: value.to_string() },
        Value::Object(m) => DeployValue::Object {
            entries: m.iter().map(|(k, v)| (k.clone(), deploy_value_of(v))).collect(),
            text: value.to_string(),
        },
    }
}

/// Calls `serde_yaml::from_str::<serde_json::Value>` on the text and
/// converts what it reads; the result is what `yaml_deploy_value` names for
/// the text.
#[verifier::external_body]
fn parse_deploy_yaml(text: &str) -> (r: Option<DeployValue>)
    ensures
        r == yaml_deploy_value(text@),
{
    match serde_yaml::from_str::<Value>(text) {
        Ok(v) => Some(deploy_value_of(&v)),
        Err(_) => None,
    }
}

/// The configuration that a configuration file holds: nothing when there
/// is no file (`None`) or when its text is not a YAML document.
pub open spec fn deploy_config_of(content: Option<Seq<char>>) -> Option<DeployValue> {
    match content {
        Some(t) => yaml_deploy_value(t),
        None => None,
    }
}

pub open spec fn opt_str_view(content: Option<&str>) -> Option<Seq<char>> {
    match content {
        Some(t) => Some(t@),
        None => None,
    }
}

/// Reads the deploy configuration from the text of `config/deploy.yaml`
/// (`None` when the file could not be read).
pub fn get_deploy_config(content: Option<&str>) -> (r: Option<DeployValue>)
    ensures
        r == deploy_config_of(opt_str_view(content)),
{
    match content {
        Some(t) => parse_deploy_yaml(t),
        None => None,
    }
}

/// The value stored under `key` in a list of map entries: the first entry
/// with that key.
pub open spec fn lookup(entries: Seq<(String, DeployValue)>, key: Seq<char>) -> Option<
    DeployValue,
>
    decreases entries.len(),
{
    if entries.len() == 0 {
        None
    } else if entries[0].0@ == key {
        Some(entries[0].1)
    } else {
        lookup(entries.drop_first(), key)
    }
}

/// `get(key)` of an optional value: only a map has fields.
pub open spec fn field(v: Option<DeployValue>, key: Seq<char>) -> Option<DeployValue> {
    match v {
        Some(DeployValue::Object { entries, .. }) => lookup(entries@, key),
        _ => None,
    }
}

/// The text of a value that is a string.
pub open spec fn text_of(v: Option<DeployValue>) -> Option<Seq<char>> {
    match v {
        Some(DeployValue::Text(s)) => Some(s@),
        _ => None,
    }
}

pub open spec fn deref_opt(o: Option<&DeployValue>) -> Option<DeployValue> {
    match o {
        Some(x) => Some(*x),
        None => None,
    }
}

/// A value read as text: a string as it is, nothing for null, and the
/// written form of anything else.
pub open spec fn value_string(v: DeployValue) -> Option<Seq<char>> {
    match v {
        DeployValue::Null => None,
        DeployValue::Bool(b) => Some(
            if b {
                "true"@
            } else {
                "false"@
            },
        ),
        DeployValue::Number { text, .. } => Some(text@),
        DeployValue::Text(s) => Some(s@),
        DeployValue::Array { text, .. } => Some(text@),
        DeployValue::Object { text, .. } => Some(text@),
    }
}

/// A value read as a port number: a whole number up to 65535, or a string
/// that `u16::from_str` accepts.
pub open spec fn value_u16(v: DeployValue) -> Option<u16> {
    match v {
        DeployValue::Number { as_u64: Some(n), .. } => if n <= 65535 {
            Some(n as u16)
        } else {
            None
        },
        DeployValue::Text(s) => match parse_unsigned(s@, 65535) {
            Some(n) => Some(n as u16),
            None => None,
        },
        _ => None,
    }
}

/// A value read as a switch: a boolean, or one of the words
/// true/1/yes/on and false/0/no/off in any ASCII case.
pub open spec fn value_bool(v: DeployValue) -> Option<bool> {
    match v {
        DeployValue::Bool(b) => Some(b),
        DeployValue::Text(s) => {
            let l = lower(s@);
            if l == "true"@ || l == "1"@ || l == "yes"@ || l == "on"@ {
                Some(true)
            } else if l == "false"@ || l == "0"@ || l == "no"@ || l == "off"@ {
                Some(false)
            } else {
                None
            }
        },
        _ => None,
    }
}

/// Text that holds something other than white space.
pub open spec fn not_blank(s: Seq<char>) -> bool {
    trim(s).len() > 0
}

/// The non-blank texts of a sequence of values, in order.
pub open spec fn list_strings(items: Seq<DeployValue>) -> Seq<Seq<char>>
    decreases items.len(),
{
    if items.len() == 0 {
        Seq::empty()
    } else {
        let rest = list_strings(items.drop_last());
        match value_string(items.last()) {
            Some(s) => if not_blank(s) {
                rest.push(s)
            } else {
                rest
            },
            None => rest,
        }
    }
}

/// A value read as a list of texts: the non-blank texts of a list's items,
/// or the value itself as a one-item list when it reads as non-blank text.
pub open spec fn value_string_list(v: DeployValue) -> Seq<Seq<char>> {
    match v {
        DeployValue::Array { items, .. } => list_strings(items@),
        _ => match value_string(v) {
            Some(s) => if not_blank(s) {
                seq![s]
            } else {
                Seq::empty()
            },
            None => Seq::empty(),
        },
    }
}

pub open spec fn strings_of(v: Seq<String>) -> Seq<Seq<char>> {
    v.map_values(|s: String| s@)
}

/// The field `key` of `v`, when `v` is a map that has one.
pub fn get_field<'a>(v: Option<&'a DeployValue>, key: &str) -> (r: Option<&'a DeployValue>)
    ensures
        deref_opt(r) == field(deref_opt(v), key@),
{
    match v {
        Some(DeployValue::Object { entries, .. }) => {
            assert(field(deref_opt(v), key@) == lookup(entries@, key@));
            let k = String::from_str(key);
            let mut i: usize = 0;
            assert(entries@.skip(0) =~= entries@);
            while i < entries.len()
                invariant
                    i <= entries.len(),
                    k@ == key@,
                    field(deref_opt(v), key@) == lookup(entries@, key@),
                    lookup(entries@, key@) == lookup(entries@.skip(i as int), key@),
                decreases entries.len() - i,
            {
                let ghost rest = entries@.skip(i as int);
                assert(rest.drop_first() =~= entries@.skip(i + 1));
                assert(rest[0] == entries@[i as int]);
                if entries[i].0 == k {
                    assert(entries@[i as int].0@ == key@);
                    assert(lookup(rest, key@) == Some(entries@[i as int].1));
                    return Some(&entries[i].1);
                }
                i = i + 1;
            }
            assert(entries@.skip(i as int) =~= Seq::<(String, DeployValue)>::empty());
            None
        },
        _ => None,
    }
}

/// The text of `v` when it is a string.
pub fn as_text<'a>(v: Option<&'a DeployValue>) -> (r: Option<&'a String>)
    ensures
        match r {
            Some(s) => text_of(deref_opt(v)) == Some(s@),
            None => text_of(deref_opt(v)) is None,
        },
{
    match v {
        Some(DeployValue::Text(s)) => Some(s),
        _ => None,
    }
}

/// Reads a value as text.
pub fn value_as_string(v: &DeployValue) -> (r: Option<String>)
    ensures
        match r {
            Some(s) => value_string(*v) == Some(s@),
            None => value_string(*v) is None,
        },
{
    match v {
        DeployValue::Null => None,
        DeployValue::Bool(b) => if *b {
            Some(String::from_str("true"))
        } else {
            Some(String::from_str("false"))
        },
        DeployValue::Number { text, .. } => Some(text.clone()),
        DeployValue::Text(s) => Some(s.clone()),
        DeployValue::Array { text, .. } => Some(text.clone()),
        DeployValue::Object { text, .. } => Some(text.clone()),
    }
}

/// Reads a value as a port number.
pub fn value_as_u16(v: &DeployValue) -> (r: Option<u16>)
    ensures
        r == value_u16(*v),
{
    match v {
        DeployValue::Number { as_u64: Some(n), .. } => if *n <= 65535 {
            Some(*n as u16)
        } else {
            None
        },
        DeployValue::Text(s) => {
            let cs = chars_of(s.as_str());
            match parse_unsigned_chars(&cs, 65535) {
                Some(n) => Some(n as u16),
                None => None,
            }
        },
        _ => None,
    }
}

/// Reads a value as a switch.
pub fn value_as_bool(v: &DeployValue) -> (r: Option<bool>)
    ensures
        r == value_bool(*v),
{
    match v {
        DeployValue::Bool(b) => Some(*b),
        DeployValue::Text(s) => {
            let cs = chars_of(s.as_str());
            let l = lower_chars(&cs);
            if eq_str(&l, "true") || eq_str(&l, "1") || eq_str(&l, "yes") || eq_str(&l, "on") {
                Some(true)
            } else if eq_str(&l, "false") || eq_str(&l, "0") || eq_str(&l, "no") || eq_str(
                &l,
                "off",
            ) {
                Some(false)
            } else {
                None
            }
        },
        _ => None,
    }
}

/// Whether a string holds something other than white space.
pub fn is_not_blank(s: &String) -> (b: bool)
    ensures
        b == not_blank(s@),
{
    let cs = chars_of(s.as_str());
    let t = trim_chars(&cs);
    t.len() > 0
}

/// Reads a value as a list of texts.
pub fn value_as_string_list(v: &DeployValue) -> (r: Vec<String>)
    ensures
        strings_of(r@) == value_string_list(*v),
{
    match v {
        DeployValue::Array { items, .. } => {
            let mut r: Vec<String> = Vec::new();
            let mut i: usize = 0;
            while i < items.len()
                invariant
                    i <= items.len(),
                    strings_of(r@) == list_strings(items@.take(i as int)),
                decreases items.len() - i,
            {
                let ghost before = strings_of(r@);
                assert(items@.take(i + 1).drop_last() =~= items@.take(i as int));
                assert(items@.take(i + 1).last() == items@[i as int]);
                match value_as_string(&items[i]) {
                    Some(s) => {
                        if is_not_blank(&s) {
                            r.push(s);
                            assert(strings_of(r@) =~= before.push(r@.last()@));
                        }
                    },
                    None => {},
                }
                i = i + 1;
            }
            assert(items@.take(items.len() as int) =~= items@);
            r
        },
        _ => {
            let mut r: Vec<String> = Vec::new();
            match value_as_string(v) {
                Some(s) => {
                    if is_not_blank(&s) {
                        r.push(s);
                    }
                },
                None => {},
            }
            assert(strings_of(r@) =~= value_string_list(*v));
            r
        },
    }
}

/// When the launcher looks for an update of itself.
#[derive(Debug, Clone, Copy, PartialEq, Eq, Structural)]
pub enum UpdateMethod {
    Manual,
    Background,
    Startup,
}

/// The name a method has in the configuration file.
pub open spec fn method_name(m: UpdateMethod) -> Seq<char> {
    match m {
        UpdateMethod::Manual => "manual"@,
        UpdateMethod::Background => "background"@,
        UpdateMethod::Startup => "startup"@,
    }
}

/// The method that `Deploy.Update.UpdateMethod` names: its text without
/// surrounding white space, in any ASCII case; manual for anything else and
/// when the setting or the configuration is missing.
pub open spec fn update_method_of(config: Option<DeployValue>) -> UpdateMethod {
    match text_of(field(field(field(config, "Deploy"@), "Update"@), "UpdateMethod"@)) {
        Some(s) => {
            let t = lower(trim(s));
            if t == "background"@ {
                UpdateMethod::Background
            } else if t == "startup"@ {
                UpdateMethod::Startup
            } else {
                UpdateMethod::Manual
            }
        },
        None => UpdateMethod::Manual,
    }
}

impl UpdateMethod {
    /// The name the method has in the configuration file.
    pub fn name(&self) -> (s: &'static str)
        ensures
            s@ == method_name(*self),
    {
        match self {
            UpdateMethod::Manual => "manual",
            UpdateMethod::Background => "background",
            UpdateMethod::Startup => "startup",
        }
    }
}

/// The update method the deploy configuration selects.
pub fn get_update_method(config: Option<&DeployValue>) -> (m: UpdateMethod)
    ensures
        m == update_method_of(deref_opt(config)),
{
    let update = get_field(get_field(get_field(config, "Deploy"), "Update"), "UpdateMethod");
    match as_text(update) {
        Some(s) => {
            let cs = chars_of(s.as_str());
            let t = lower_chars(&trim_chars(&cs));
            if eq_str(&t, "background") {
                UpdateMethod::Background
            } else if eq_str(&t, "startup") {
                UpdateMethod::Startup
            } else {
                UpdateMethod::Manual
            }
        },
        None => UpdateMethod::Manual,
    }
}

/// The PyPI mirror that `Deploy.Python.PypiMirror` names, unless it is empty
/// or the word `null`.
pub open spec fn pypi_mirror_of(config: Option<DeployValue>) -> Option<Seq<char>> {
    match text_of(field(field(field(config, "Deploy"@), "Python"@), "PypiMirror"@)) {
        Some(s) => if s.len() > 0 && s != "null"@ {
            Some(s)
        } else {
            None
        },
        None => None,
    }
}

/// The PyPI mirror the deploy configuration names.
pub fn deploy_pypi_mirror(config: Option<&DeployValue>) -> (r: Option<String>)
    ensures
        match r {
            Some(s) => pypi_mirror_of(deref_opt(config)) == Some(s@),
            None => pypi_mirror_of(deref_opt(config)) is None,
        },
{
    let mirror = get_field(get_field(get_field(config, "Deploy"), "Python"), "PypiMirror");
    match as_text(mirror) {
        Some(s) => {
            let cs = chars_of(s.as_str());
            if cs.len() > 0 && !eq_str(&cs, "null") {
                Some(s.clone())
            } else {
                None
            }
        },
        None => None,
    }
}

proof fn lemma_list_strings_all_text(items: Seq<DeployValue>)
    requires
        forall|i: int| 0 <= i < items.len() ==> (#[trigger] items[i] is Text) && not_blank(items[i]->Text_0@),
    ensures
        list_strings(items) == items.map_values(|x: DeployValue| x->Text_0@),
    decreases items.len(),
{
    if items.len() > 0 {
        let front = items.drop_last();
        assert forall|i: int| 0 <= i < front.len() implies (#[trigger] front[i] is Text) && not_blank(front[i]->Text_0@) by {
            assert(front[i] == items[i]);
        }
        lemma_list_strings_all_text(front);
        assert(items.map_values(|x: DeployValue| x->Text_0@) =~= front.map_values(|x: DeployValue| x->Text_0@).push(
            items.last()->Text_0@,
        ));
    }
}

proof fn lemma_list_strings_not_blank(items: Seq<DeployValue>)
    ensures
        forall|i: int| 0 <= i < list_strings(items).len() ==> not_blank(#[trigger] list_strings(items)[i]),
        list_strings(items).len() <= items.len(),
    decreases items.len(),
{
    if items.len() > 0 {
        lemma_list_strings_not_blank(items.drop_last());
        let rest = list_strings(items.drop_last());
        assert forall|i: int| 0 <= i < list_strings(items).len() implies not_blank(#[trigger] list_strings(items)[i]) by {
            if i < rest.len() {
                assert(list_strings(items)[i] == rest[i]);
            }
        }
    }
}

/// A setting that holds a list of texts (such as `Run`) reads as: a list,
/// its non-blank entries in order (all of them when all are non-blank
/// texts); a single non-blank text, or a number, as the one-item list of
/// its text; a blank text or null as no entries. No entry read is ever
/// blank.
pub proof fn lemma_string_list_setting(v: DeployValue)
    ensures
        forall|i: int| 0 <= i < value_string_list(v).len() ==> trim(#[trigger] value_string_list(v)[i]).len() > 0,
        v matches DeployValue::Text(s) ==> value_string_list(v) == (if trim(s@).len() > 0 {
            seq![s@]
        } else {
            Seq::<Seq<char>>::empty()
        }),
        v matches DeployValue::Number { text, .. } ==> value_string_list(v) == (if trim(text@).len() > 0 {
            seq![text@]
        } else {
            Seq::<Seq<char>>::empty()
        }),
        v is Null ==> value_string_list(v).len() == 0,
        v matches DeployValue::Array { items, .. } ==> value_string_list(v).len() <= items.len(),
        v matches DeployValue::Array { items, .. } ==> ((forall|i: int| 0 <= i < items@.len() ==> (#[trigger] items@[i] is Text) && trim(
            items@[i]->Text_0@,
        ).len() > 0) ==> value_string_list(v) == items@.map_values(|x: DeployValue| x->Text_0@)),
{
    match v {
        DeployValue::Array { items, .. } => {
            lemma_list_strings_not_blank(items@);
            if forall|i: int| 0 <= i < items@.len() ==> (#[trigger] items@[i] is Text) && not_blank(items@[i]->Text_0@) {
                lemma_list_strings_all_text(items@);
            }
        },
        _ => {},
    }
}

/// Reading the update method back: a configuration whose
/// `Deploy.Update.UpdateMethod` is a method's name, in any ASCII case and
/// with any surrounding white space, selects that method; a missing or
/// non-text setting, or one that names no method, selects manual.
pub proof fn lemma_update_method_setting(config: Option<DeployValue>, m: UpdateMethod)
    ensures
        ({
            let setting = text_of(field(field(field(config, "Deploy"@), "Update"@), "UpdateMethod"@));
            &&& (setting is Some && lower(trim(setting->0)) == method_name(m) ==> update_method_of(config) == m)
            &&& setting is None ==> update_method_of(config) == UpdateMethod::Manual
            &&& (setting is Some && lower(trim(setting->0)) != "background"@ && lower(trim(setting->0))
                != "startup"@ ==> update_method_of(config) == UpdateMethod::Manual)
        }),
{
    reveal_strlit("manual");
    reveal_strlit("background");
    reveal_strlit("startup");
    assert("manual"@ != "background"@ && "manual"@ != "startup"@ && "background"@ != "startup"@) by {
        assert("manual"@.len() != "background"@.len());
        assert("manual"@[0] != "startup"@[0]);
        assert("background"@[0] != "startup"@[0]);
    }
}

/// The PyPI mirror is the `Deploy.Python.PypiMirror` text exactly as
/// written, when it is set to something other than the empty text or
/// `null`; otherwise there is none.
pub proof fn lemma_pypi_mirror_setting(config: Option<DeployValue>)
    ensures
        ({
            let setting = text_of(field(field(field(config, "Deploy"@), "Python"@), "PypiMirror"@));
            &&& pypi_mirror_of(config) is Some ==> setting == pypi_mirror_of(config)
            &&& (setting is Some && setting->0.len() > 0 && setting->0 != "null"@ ==> pypi_mirror_of(config)
                == setting)
            &&& (setting is Some && (setting->0.len() == 0 || setting->0 == "null"@) ==> pypi_mirror_of(config)
                is None)
            &&& setting is None ==> pypi_mirror_of(config) is None
        }),
{
}

/// The update method that the text of `config/deploy.yaml` selects
/// (`None` when the file could not be read): manual unless it says
/// otherwise.
pub fn update_method_of_text(content: Option<&str>) -> (m: UpdateMethod)
    ensures
        m == update_method_of(deploy_config_of(opt_str_view(content))),
{
    let config = get_deploy_config(content);
    get_update_method(config.as_ref())
}

/// The PyPI mirror that the text of `config/deploy.yaml` names, if any.
pub fn pypi_mirror_of_text(content: Option<&str>) -> (r: Option<String>)
    ensures
        match r {
            Some(s) => pypi_mirror_of(deploy_config_of(opt_str_view(content))) == Some(s@),
            None => pypi_mirror_of(deploy_config_of(opt_str_view(content))) is None,
        },
{
    let config = get_deploy_config(content);
    deploy_pypi_mirror(config.as_ref())
}

} // verus!
