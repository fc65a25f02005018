//! Settings files: where they live, how a settings document is read key by key,
//! and how the default and the override file combine.
//!
//! Reading files is left to the caller, which hands over what it read; every
//! decision and every log line is made here.
use crate::models::{default_settings, normalized_interval, ScanScope, Settings};
use crate::paths::{
    join_spec, with_file_name_spec, APP_NAME, CONFIG_DIR_RELATIVE, JSON_EXTENSION,
    SETTINGS_DEFAULT_FILE, SETTINGS_OVERRIDE_FILE,
};
use crate::text::{decimal_spec, replace_char_spec, trim_spec, views};
use vstd::prelude::*;
use vstd::string::*;

verus! {

/// Name of the file through which another tool hands over the selected repository.
pub const EXTERNAL_SELECTED_REPO_FILE: &'static str = "selected_repo_path.txt";

/// A JSON value, as far as the settings reader looks into it.
#[derive(Debug)]
pub enum JsonValue {
    Null,
    /// A number, with its value when it is an integer that fits in `u64`.
    Number(Option<u64>),
    Text(String),
    /// A boolean, an array or an object.
    Other,
}

impl Clone for JsonValue {
    fn clone(&self) -> (res: Self)
        ensures
            res == *self,
    {
        match self {
            JsonValue::Null => JsonValue::Null,
            JsonValue::Number(n) => JsonValue::Number(*n),
            JsonValue::Text(t) => JsonValue::Text(t.clone()),
            JsonValue::Other => JsonValue::Other,
        }
    }
}

/// A parsed settings document.
#[derive(Debug)]
pub enum JsonDocument {
    /// The text is not JSON; the parser's message.
    Invalid(String),
    /// Valid JSON whose root is not an object.
    NotObject,
    /// The root object's members.
    Object(Vec<(String, JsonValue)>),
}

/// What `serde_json::from_str::<serde_json::Value>` makes of `text`, seen as a `JsonDocument`.
pub uninterp spec fn json_document(text: Seq<char>) -> JsonDocument;

/// Calls `serde_json::from_str::<serde_json::Value>` and hands the root over as a
/// `JsonDocument`: the error's message, or that the root is not an object, or the
/// object's members with each value reduced to what the settings reader looks at
/// (`Number::as_u64` for numbers).  The contract names the result only.
#[verifier::external_body]
pub(crate) fn parse_json_document(text: &str) -> (res: JsonDocument)
    ensures
        res == json_document(text@),
{
    match serde_json::from_str::<serde_json::Value>(text) {
        Err(err) => JsonDocument::Invalid(err.to_string()),
        Ok(serde_json::Value::Object(map)) => JsonDocument::Object(map.into_iter().map(|(key, value)| (key, match value {
            serde_json::Value::Null => JsonValue::Null,
            serde_json::Value::Number(number) => JsonValue::Number(number.as_u64()),
            serde_json::Value::String(text) => JsonValue::Text(text),
            serde_json::Value::Bool(_) | serde_json::Value::Array(_) | serde_json::Value::Object(_) => JsonValue::Other,
        })).collect()),
        Ok(_) => JsonDocument::NotObject,
    }
}

/// The value stored under `key`, looking at the members in order.
pub open spec fn json_lookup(entries: Seq<(String, JsonValue)>, key: Seq<char>) -> Option<JsonValue>
    decreases entries.len(),
{
    if entries.len() == 0 {
        None
    } else if entries[0].0@ == key {
        Some(entries[0].1)
    } else {
        json_lookup(entries.drop_first(), key)
    }
}

/// The value stored under `key`.
pub fn lookup(entries: &Vec<(String, JsonValue)>, key: &str) -> (res: Option<JsonValue>)
    ensures
        res == json_lookup(entries@, key@),
{
    let key_string = crate::text::owned(key);
    let mut i: usize = 0;
    assert(entries@.skip(0) == entries@);
    while i < entries.len()
        invariant
            i <= entries@.len(),
            key_string@ == key@,
            json_lookup(entries@, key@) == json_lookup(entries@.skip(i as int), key@),
        decreases entries@.len() - i,
    {
        assert(entries@.skip(i as int).drop_first() == entries@.skip(i + 1));
        if entries[i].0 == key_string {
            return Some(entries[i].1.clone());
        }
        i = i + 1;
    }
    None
}

/// The settings that one file supplies; `None` where the file gives no usable value.
#[derive(Debug)]
pub struct PartialSettings {
    pub schema_version: Option<u32>,
    pub root_folder_path: Option<Option<String>>,
    pub scan_scope: Option<ScanScope>,
    pub update_interval_sec: Option<u64>,
    pub selected_repo_path: Option<Option<String>>,
}

/// A file that supplies nothing.
pub open spec fn empty_partial() -> PartialSettings {
    PartialSettings {
        schema_version: None,
        root_folder_path: None,
        scan_scope: None,
        update_interval_sec: None,
        selected_repo_path: None,
    }
}

/// `source: missing key 'key'`.
pub open spec fn missing_key_message(source: Seq<char>, key: Seq<char>) -> Seq<char> {
    source + ": missing key '"@ + key + "'"@
}

/// `source: key 'key'` followed by `tail`.
pub open spec fn key_message(source: Seq<char>, key: Seq<char>, tail: Seq<char>) -> Seq<char> {
    source + ": key '"@ + key + "'"@ + tail
}

/// The message for a missing key, when missing keys are reported.
pub open spec fn missing_key_logs(source: Seq<char>, key: Seq<char>, strict: bool) -> Seq<Seq<char>> {
    if strict {
        seq![missing_key_message(source, key)]
    } else {
        Seq::empty()
    }
}

/// What `read_u32` takes from a document and the messages it logs.
pub open spec fn read_u32_spec(
    entries: Seq<(String, JsonValue)>,
    key: Seq<char>,
    source: Seq<char>,
    strict: bool,
) -> (Option<u32>, Seq<Seq<char>>) {
    match json_lookup(entries, key) {
        None => (None, missing_key_logs(source, key, strict)),
        Some(JsonValue::Number(Some(raw))) => if raw <= u32::MAX {
            (Some(raw as u32), Seq::empty())
        } else {
            (None, seq![key_message(source, key, " is out of range"@)])
        },
        Some(_) => (None, seq![key_message(source, key, " must be integer"@)]),
    }
}

/// What `read_nullable_string` takes from a document and the messages it logs.
pub open spec fn read_nullable_string_spec(
    entries: Seq<(String, JsonValue)>,
    key: Seq<char>,
    source: Seq<char>,
    strict: bool,
) -> (Option<Option<String>>, Seq<Seq<char>>) {
    match json_lookup(entries, key) {
        None => (None, missing_key_logs(source, key, strict)),
        Some(JsonValue::Null) => (Some(None), Seq::empty()),
        Some(JsonValue::Text(text)) => (Some(Some(text)), Seq::empty()),
        Some(_) => (None, seq![key_message(source, key, " must be string or null"@)]),
    }
}

/// What `read_scan_scope` takes from a document and the messages it logs.
pub open spec fn read_scan_scope_spec(
    entries: Seq<(String, JsonValue)>,
    key: Seq<char>,
    source: Seq<char>,
    strict: bool,
) -> (Option<ScanScope>, Seq<Seq<char>>) {
    match json_lookup(entries, key) {
        None => (None, missing_key_logs(source, key, strict)),
        Some(JsonValue::Text(text)) => if text@ == "direct"@ {
            (Some(ScanScope::Direct), Seq::empty())
        } else if text@ == "depth2"@ {
            (Some(ScanScope::Depth2), Seq::empty())
        } else {
            (None, seq![key_message(source, key, " has invalid value '"@ + text@ + "'"@)])
        },
        Some(_) => (None, seq![key_message(source, key, " must be string"@)]),
    }
}

/// What `read_update_interval` takes from a document and the messages it logs.
pub open spec fn read_update_interval_spec(
    entries: Seq<(String, JsonValue)>,
    key: Seq<char>,
    source: Seq<char>,
    strict: bool,
) -> (Option<u64>, Seq<Seq<char>>) {
    match json_lookup(entries, key) {
        None => (None, missing_key_logs(source, key, strict)),
        Some(JsonValue::Number(Some(raw))) => if 1 <= raw <= 3600 {
            (Some(raw), Seq::empty())
        } else {
            (
                None,
                seq![
                    key_message(
                        source,
                        key,
                        " must be in range 1..=3600 (got "@ + decimal_spec(raw as nat) + ")"@,
                    ),
                ],
            )
        },
        Some(_) => (None, seq![key_message(source, key, " must be integer"@)]),
    }
}

/// What one settings document supplies, key by key, and the messages logged on the way.
pub open spec fn extract_partial_spec(
    entries: Seq<(String, JsonValue)>,
    source: Seq<char>,
    strict: bool,
) -> (PartialSettings, Seq<Seq<char>>) {
    let a = read_u32_spec(entries, "schema_version"@, source, strict);
    let b = read_nullable_string_spec(entries, "root_folder_path"@, source, strict);
    let c = read_scan_scope_spec(entries, "scan_scope"@, source, strict);
    let d = read_update_interval_spec(entries, "update_interval_sec"@, source, strict);
    let e = read_nullable_string_spec(entries, "selected_repo_path"@, source, strict);
    (
        PartialSettings {
            schema_version: a.0,
            root_folder_path: b.0,
            scan_scope: c.0,
            update_interval_sec: d.0,
            selected_repo_path: e.0,
        },
        a.1 + b.1 + c.1 + d.1 + e.1,
    )
}

/// What a settings file supplies, given what reading it gave (`Err` with the read
/// error's message), and the messages logged.
pub open spec fn parse_partial_spec(
    read: Result<Seq<char>, Seq<char>>,
    source: Seq<char>,
    strict: bool,
) -> (PartialSettings, Seq<Seq<char>>) {
    match read {
        Err(err) => (
            empty_partial(),
            if strict {
                seq![source + ": read failed ("@ + err + ")"@]
            } else {
                Seq::empty()
            },
        ),
        Ok(contents) => match json_document(contents) {
            JsonDocument::Invalid(err) => (
                empty_partial(),
                seq![source + ": json parse failed ("@ + err@ + ")"@],
            ),
            JsonDocument::NotObject => (
                empty_partial(),
                seq![source + ": root must be a JSON object"@],
            ),
            JsonDocument::Object(entries) => extract_partial_spec(entries@, source, strict),
        },
    }
}

/// `settings` with every value that `partial` supplies put in place.
pub open spec fn apply_partial_spec(settings: Settings, partial: PartialSettings) -> Settings {
    Settings {
        schema_version: match partial.schema_version {
            Some(v) => v,
            None => settings.schema_version,
        },
        root_folder_path: match partial.root_folder_path {
            Some(v) => v,
            None => settings.root_folder_path,
        },
        scan_scope: match partial.scan_scope {
            Some(v) => v,
            None => settings.scan_scope,
        },
        update_interval_sec: match partial.update_interval_sec {
            Some(v) => v,
            None => settings.update_interval_sec,
        },
        selected_repo_path: match partial.selected_repo_path {
            Some(v) => v,
            None => settings.selected_repo_path,
        },
    }
}

/// `settings` after `Settings::normalize`.
pub open spec fn normalize_spec(settings: Settings) -> Settings {
    Settings { update_interval_sec: normalized_interval(settings.update_interval_sec), ..settings }
}

fn push_missing_key(logs: &mut Vec<String>, source: &str, key: &str, strict: bool)
    ensures
        views(final(logs)@) == views(old(logs)@) + missing_key_logs(source@, key@, strict),
{
    if strict {
        let mut m = crate::text::owned(source);
        m.append(": missing key '");
        m.append(key);
        m.append("'");
        logs.push(m);
        assert(views(final(logs)@) == views(old(logs)@).push(m@));
    } else {
        assert(views(final(logs)@) == views(old(logs)@) + Seq::<Seq<char>>::empty());
    }
}

fn key_message_string(source: &str, key: &str, tail: &str) -> (res: String)
    ensures
        res@ == key_message(source@, key@, tail@),
{
    let mut m = crate::text::owned(source);
    m.append(": key '");
    m.append(key);
    m.append("'");
    m.append(tail);
    m
}

fn push_log(logs: &mut Vec<String>, message: String)
    ensures
        views(final(logs)@) == views(old(logs)@) + seq![message@],
{
    logs.push(message);
    assert(views(final(logs)@) == views(old(logs)@).push(message@));
}

proof fn lemma_views_add_empty(v: Seq<String>)
    ensures
        views(v) + Seq::<Seq<char>>::empty() == views(v),
{
    assert(views(v) + Seq::<Seq<char>>::empty() =~= views(v));
}

/// Reads `key` as an unsigned 32-bit integer.
pub fn read_u32(
    entries: &Vec<(String, JsonValue)>,
    key: &str,
    source: &str,
    strict: bool,
    logs: &mut Vec<String>,
) -> (res: Option<u32>)
    ensures
        res == read_u32_spec(entries@, key@, source@, strict).0,
        views(final(logs)@) == views(old(logs)@) + read_u32_spec(entries@, key@, source@, strict).1,
{
    proof { lemma_views_add_empty(logs@); }
    match lookup(entries, key) {
        None => {
            push_missing_key(logs, source, key, strict);
            None
        },
        Some(JsonValue::Number(Some(raw))) => {
            if raw <= 4294967295 {
                Some(raw as u32)
            } else {
                push_log(logs, key_message_string(source, key, " is out of range"));
                None
            }
        },
        Some(_) => {
            push_log(logs, key_message_string(source, key, " must be integer"));
            None
        },
    }
}

/// Reads `key` as a string or `null`.
pub fn read_nullable_string(
    entries: &Vec<(String, JsonValue)>,
    key: &str,
    source: &str,
    strict: bool,
    logs: &mut Vec<String>,
) -> (res: Option<Option<String>>)
    ensures
        res == read_nullable_string_spec(entries@, key@, source@, strict).0,
        views(final(logs)@) == views(old(logs)@) + read_nullable_string_spec(
            entries@,
            key@,
            source@,
            strict,
        ).1,
{
    proof { lemma_views_add_empty(logs@); }
    match lookup(entries, key) {
        None => {
            push_missing_key(logs, source, key, strict);
            None
        },
        Some(JsonValue::Null) => Some(None),
        Some(JsonValue::Text(text)) => Some(Some(text)),
        Some(_) => {
            push_log(logs, key_message_string(source, key, " must be string or null"));
            None
        },
    }
}

/// Reads `key` as a scan scope, `"direct"` or `"depth2"`.
pub fn read_scan_scope(
    entries: &Vec<(String, JsonValue)>,
    key: &str,
    source: &str,
    strict: bool,
    logs: &mut Vec<String>,
) -> (res: Option<ScanScope>)
    ensures
        res == read_scan_scope_spec(entries@, key@, source@, strict).0,
        views(final(logs)@) == views(old(logs)@) + read_scan_scope_spec(
            entries@,
            key@,
            source@,
            strict,
        ).1,
{
    proof { lemma_views_add_empty(logs@); }
    match lookup(entries, key) {
        None => {
            push_missing_key(logs, source, key, strict);
            None
        },
        Some(JsonValue::Text(text)) => {
            let direct = crate::text::owned("direct");
            let depth2 = crate::text::owned("depth2");
            if text == direct {
                Some(ScanScope::Direct)
            } else if text == depth2 {
                Some(ScanScope::Depth2)
            } else {
                let mut tail = crate::text::owned(" has invalid value '");
                tail.append(text.as_str());
                tail.append("'");
                push_log(logs, key_message_string(source, key, tail.as_str()));
                None
            }
        },
        Some(_) => {
            push_log(logs, key_message_string(source, key, " must be string"));
            None
        },
    }
}

/// Reads `key` as an update interval in `1..=3600` seconds.
pub fn read_update_interval(
    entries: &Vec<(String, JsonValue)>,
    key: &str,
    source: &str,
    strict: bool,
    logs: &mut Vec<String>,
) -> (res: Option<u64>)
    ensures
        res == read_update_interval_spec(entries@, key@, source@, strict).0,
        views(final(logs)@) == views(old(logs)@) + read_update_interval_spec(
            entries@,
            key@,
            source@,
            strict,
        ).1,
{
    proof { lemma_views_add_empty(logs@); }
    match lookup(entries, key) {
        None => {
            push_missing_key(logs, source, key, strict);
            None
        },
        Some(JsonValue::Number(Some(raw))) => {
            if 1 <= raw && raw <= 3600 {
                Some(raw)
            } else {
                let mut tail = crate::text::owned(" must be in range 1..=3600 (got ");
                let digits = crate::text::decimal(raw);
                tail.append(digits.as_str());
                tail.append(")");
                push_log(logs, key_message_string(source, key, tail.as_str()));
                None
            }
        },
        Some(_) => {
            push_log(logs, key_message_string(source, key, " must be integer"));
            None
        },
    }
}

/// Reads the five settings keys of one document, in order.
pub fn extract_partial_from_map(
    entries: &Vec<(String, JsonValue)>,
    source: &str,
    strict: bool,
    logs: &mut Vec<String>,
) -> (res: PartialSettings)
    ensures
        res == extract_partial_spec(entries@, source@, strict).0,
        views(final(logs)@) == views(old(logs)@) + extract_partial_spec(entries@, source@, strict).1,
{
    let ghost l0 = views(logs@);
    let schema_version = read_u32(entries, "schema_version", source, strict, logs);
    let root_folder_path = read_nullable_string(entries, "root_folder_path", source, strict, logs);
    let scan_scope = read_scan_scope(entries, "scan_scope", source, strict, logs);
    let update_interval_sec = read_update_interval(
        entries,
        "update_interval_sec",
        source,
        strict,
        logs,
    );
    let selected_repo_path = read_nullable_string(
        entries,
        "selected_repo_path",
        source,
        strict,
        logs,
    );
    proof {
        let a = read_u32_spec(entries@, "schema_version"@, source@, strict);
        let b = read_nullable_string_spec(entries@, "root_folder_path"@, source@, strict);
        let c = read_scan_scope_spec(entries@, "scan_scope"@, source@, strict);
        let d = read_update_interval_spec(entries@, "update_interval_sec"@, source@, strict);
        let e = read_nullable_string_spec(entries@, "selected_repo_path"@, source@, strict);
        assert(views(logs@) == l0 + a.1 + b.1 + c.1 + d.1 + e.1);
        assert(l0 + a.1 + b.1 + c.1 + d.1 + e.1 == l0 + (a.1 + b.1 + c.1 + d.1 + e.1));
    }
    PartialSettings {
        schema_version,
        root_folder_path,
        scan_scope,
        update_interval_sec,
        selected_repo_path,
    }
}

/// Reads one settings file from what reading it gave: the read error's message, or its text.
pub fn parse_partial_settings(
    read: Result<String, String>,
    source: &str,
    strict: bool,
    logs: &mut Vec<String>,
) -> (res: PartialSettings)
    ensures
        res == parse_partial_spec(
            match read {
                Ok(t) => Ok(t@),
                Err(e) => Err(e@),
            },
            source@,
            strict,
        ).0,
        views(final(logs)@) == views(old(logs)@) + parse_partial_spec(
            match read {
                Ok(t) => Ok(t@),
                Err(e) => Err(e@),
            },
            source@,
            strict,
        ).1,
{
    proof { lemma_views_add_empty(logs@); }
    let empty = PartialSettings {
        schema_version: None,
        root_folder_path: None,
        scan_scope: None,
        update_interval_sec: None,
        selected_repo_path: None,
    };
    match read {
        Err(err) => {
            if strict {
                let mut m = crate::text::owned(source);
                m.append(": read failed (");
                m.append(err.as_str());
                m.append(")");
                push_log(logs, m);
            }
            empty
        },
        Ok(contents) => {
            match parse_json_document(contents.as_str()) {
                JsonDocument::Invalid(err) => {
                    let mut m = crate::text::owned(source);
                    m.append(": json parse failed (");
                    m.append(err.as_str());
                    m.append(")");
                    push_log(logs, m);
                    empty
                },
                JsonDocument::NotObject => {
                    let mut m = crate::text::owned(source);
                    m.append(": root must be a JSON object");
                    push_log(logs, m);
                    empty
                },
                JsonDocument::Object(entries) => extract_partial_from_map(
                    &entries,
                    source,
                    strict,
                    logs,
                ),
            }
        },
    }
}

/// Puts every value that `partial` supplies in place.
pub fn apply_partial(settings: &mut Settings, partial: PartialSettings)
    ensures
        *final(settings) == apply_partial_spec(*old(settings), partial),
{
    if let Some(schema_version) = partial.schema_version {
        settings.schema_version = schema_version;
    }
    if let Some(root_folder_path) = partial.root_folder_path {
        settings.root_folder_path = root_folder_path;
    }
    if let Some(scan_scope) = partial.scan_scope {
        settings.scan_scope = scan_scope;
    }
    if let Some(update_interval_sec) = partial.update_interval_sec {
        settings.update_interval_sec = update_interval_sec;
    }
    if let Some(selected_repo_path) = partial.selected_repo_path {
        settings.selected_repo_path = selected_repo_path;
    }
}


/// The settings read at start-up and the messages logged while reading them.
pub struct LoadSettingsResult {
    pub settings: Settings,
    pub logs: Vec<String>,
}

/// The view of a file read: its text, or the read error's message.
pub open spec fn read_view(read: Result<String, String>) -> Result<Seq<char>, Seq<char>> {
    match read {
        Ok(t) => Ok(t@),
        Err(e) => Err(e@),
    }
}

/// The default settings file below `project_root`.
pub open spec fn default_settings_path_spec(project_root: Seq<char>, sep: char) -> Seq<char> {
    join_spec(join_spec(project_root, CONFIG_DIR_RELATIVE@, sep), SETTINGS_DEFAULT_FILE@, sep)
}

/// `<project_root>/assets/config/settings.default.json`.
pub fn default_settings_path(project_root: &str, sep: char) -> (res: String)
    ensures
        res@ == default_settings_path_spec(project_root@, sep),
{
    let config_dir = crate::paths::join(project_root, CONFIG_DIR_RELATIVE, sep);
    crate::paths::join(config_dir.as_str(), SETTINGS_DEFAULT_FILE, sep)
}

/// The directory that holds the per-user files: `APPDATA`, else `HOME/.config`.
pub open spec fn user_config_base_spec(
    appdata: Option<Seq<char>>,
    home: Option<Seq<char>>,
    sep: char,
) -> Option<Seq<char>> {
    match appdata {
        Some(a) => Some(a),
        None => match home {
            Some(h) => Some(join_spec(h, ".config"@, sep)),
            None => None,
        },
    }
}

/// The per-user override settings file, or why it has no location.
pub open spec fn runtime_override_path_spec(
    appdata: Option<Seq<char>>,
    home: Option<Seq<char>>,
    sep: char,
) -> Result<Seq<char>, Seq<char>> {
    match user_config_base_spec(appdata, home, sep) {
        Some(base) => Ok(join_spec(join_spec(base, APP_NAME@, sep), SETTINGS_OVERRIDE_FILE@, sep)),
        None => Err("APPDATA and HOME are unavailable"@),
    }
}

/// The view of an optional string.
pub open spec fn opt_view(s: Option<String>) -> Option<Seq<char>> {
    match s {
        Some(t) => Some(t@),
        None => None,
    }
}

/// `<APPDATA or HOME/.config>/CodexRollbackBridge/settings.override.json`, given the
/// values of the two environment variables.
pub fn runtime_override_path(appdata: Option<String>, home: Option<String>, sep: char) -> (res: Result<String, String>)
    ensures
        read_view(res) == runtime_override_path_spec(opt_view(appdata), opt_view(home), sep),
{
    let base = match appdata {
        Some(a) => a,
        None => match home {
            Some(h) => crate::paths::join(h.as_str(), ".config", sep),
            None => {
                return Err(crate::text::owned("APPDATA and HOME are unavailable"));
            },
        },
    };
    let app_dir = crate::paths::join(base.as_str(), APP_NAME, sep);
    Ok(crate::paths::join(app_dir.as_str(), SETTINGS_OVERRIDE_FILE, sep))
}

/// The file through which the selected repository is handed over: beside the
/// override settings file.
pub fn external_selected_repo_path_file(appdata: Option<String>, home: Option<String>, sep: char) -> (res: Result<String, String>)
    ensures
        read_view(res) == match runtime_override_path_spec(opt_view(appdata), opt_view(home), sep) {
            Ok(p) => Ok(with_file_name_spec(p, EXTERNAL_SELECTED_REPO_FILE@, sep)),
            Err(e) => Err(e),
        },
{
    let path = runtime_override_path(appdata, home, sep)?;
    Ok(crate::paths::with_file_name(path.as_str(), EXTERNAL_SELECTED_REPO_FILE, sep))
}

/// The settings that start-up arrives at, and the messages logged, given what reading
/// the default file gave, where the override file lives (or why it has no location),
/// and what reading it gave (`None` when it does not exist).
pub open spec fn load_settings_spec(
    project_root: Seq<char>,
    sep: char,
    default_read: Result<Seq<char>, Seq<char>>,
    override_path: Result<Seq<char>, Seq<char>>,
    override_read: Option<Result<Seq<char>, Seq<char>>>,
) -> (Settings, Seq<Seq<char>>) {
    let default_source = "default("@ + default_settings_path_spec(project_root, sep) + ")"@;
    let d = parse_partial_spec(default_read, default_source, true);
    let after_default = apply_partial_spec(default_settings(), d.0);
    let (after_override, override_logs) = match override_path {
        Err(e) => (after_default, seq!["override path unavailable: "@ + e]),
        Ok(p) => match override_read {
            None => (after_default, Seq::empty()),
            Some(r) => {
                let o = parse_partial_spec(r, "override("@ + p + ")"@, false);
                (apply_partial_spec(after_default, o.0), o.1)
            },
        },
    };
    (normalize_spec(after_override), d.1 + override_logs)
}

/// Reads the settings at start-up: the built-in defaults, then the default file
/// (whose missing keys are reported), then the override file when it exists (whose
/// missing keys are not), then `Settings::normalize`.
pub fn load_settings(
    project_root: &str,
    sep: char,
    default_read: Result<String, String>,
    override_path: Result<String, String>,
    override_read: Option<Result<String, String>>,
) -> (res: LoadSettingsResult)
    ensures
        ({
            let spec = load_settings_spec(
                project_root@,
                sep,
                read_view(default_read),
                read_view(override_path),
                match override_read {
                    Some(r) => Some(read_view(r)),
                    None => None,
                },
            );
            res.settings == spec.0 && views(res.logs@) == spec.1
        }),
{
    let mut logs: Vec<String> = Vec::new();
    assert(views(logs@) == Seq::<Seq<char>>::empty());
    let mut settings = Settings::default();
    let default_path = default_settings_path(project_root, sep);
    let mut default_source = crate::text::owned("default(");
    default_source.append(default_path.as_str());
    default_source.append(")");
    let default_partial = parse_partial_settings(default_read, default_source.as_str(), true, &mut logs);
    apply_partial(&mut settings, default_partial);
    let ghost after_default_logs = views(logs@);
    match override_path {
        Ok(path) => {
            match override_read {
                Some(read) => {
                    let mut source = crate::text::owned("override(");
                    source.append(path.as_str());
                    source.append(")");
                    let partial = parse_partial_settings(read, source.as_str(), false, &mut logs);
                    apply_partial(&mut settings, partial);
                },
                None => {
                    assert(after_default_logs + Seq::<Seq<char>>::empty() == after_default_logs);
                },
            }
        },
        Err(err) => {
            let mut m = crate::text::owned("override path unavailable: ");
            m.append(err.as_str());
            push_log(&mut logs, m);
        },
    }
    settings.normalize();
    LoadSettingsResult { settings, logs }
}

/// The contract line logged at start-up.
pub open spec fn config_contract_spec() -> Seq<char> {
    "config_contract: default="@ + replace_char_spec(CONFIG_DIR_RELATIVE@, '\\', '/') + "/"@ + "*"@
        + ".default"@ + JSON_EXTENSION@ + " runtime="@ + "%AppData%\\"@ + APP_NAME@
        + "\\*.override"@ + JSON_EXTENSION@
}

/// `config_contract: default=<config dir>/*.default.json runtime=%AppData%\<app>\*.override.json`.
pub fn config_contract_line() -> (res: String)
    ensures
        res@ == config_contract_spec(),
{
    let mut runtime_pattern = crate::text::owned("%AppData%\\");
    runtime_pattern.append(APP_NAME);
    runtime_pattern.append("\\*.override");
    runtime_pattern.append(JSON_EXTENSION);
    let mut line = crate::text::owned("config_contract: default=");
    let config_dir = crate::text::replace_char(CONFIG_DIR_RELATIVE, '\\', '/');
    line.append(config_dir.as_str());
    line.append("/");
    line.append("*");
    line.append(".default");
    line.append(JSON_EXTENSION);
    line.append(" runtime=");
    line.append(runtime_pattern.as_str());
    line
}

/// What the hand-over file holds, trimmed; `None` when nothing but whitespace.
pub open spec fn normalize_external_spec(contents: Seq<char>) -> Option<Seq<char>> {
    if trim_spec(contents).len() == 0 {
        None
    } else {
        Some(trim_spec(contents))
    }
}

/// The trimmed content of the hand-over file, or `None` when it holds only whitespace.
pub fn normalize_external_selected_repo_path(contents: &str) -> (res: Option<String>)
    ensures
        opt_view(res) == normalize_external_spec(contents@),
{
    let trimmed = crate::text::trim(contents);
    if trimmed.as_str().is_empty() {
        None
    } else {
        Some(trimmed)
    }
}

/// What the hand-over file is written with: the selected repository's path, or
/// nothing when none is selected.
pub open spec fn external_contents_spec(selected: Option<Seq<char>>) -> Seq<char> {
    match selected {
        Some(p) => p,
        None => Seq::empty(),
    }
}

/// The text written to the hand-over file for the selected repository.
pub fn external_file_contents(selected: Option<String>) -> (res: String)
    ensures
        res@ == external_contents_spec(opt_view(selected)),
{
    match selected {
        Some(p) => p,
        None => String::new(),
    }
}

/// What the caller found at the hand-over file's location.
pub enum ExternalFileProbe {
    /// Nothing exists there.
    Missing,
    /// Something that is not a regular file exists there.
    NotAFile,
    /// Reading it failed, with the error's message.
    ReadFailed(String),
    /// Its text.
    Read(String),
}

/// The selected repository handed over through the file at `path`, given what the
/// caller found there.
pub open spec fn load_external_spec(path: Seq<char>, probe: ExternalFileProbe) -> Result<
    Option<Seq<char>>,
    Seq<char>,
> {
    match probe {
        ExternalFileProbe::Missing => Ok(None),
        ExternalFileProbe::NotAFile => Err(
            "external selected repo path is not a file: "@ + path,
        ),
        ExternalFileProbe::ReadFailed(err) => Err(
            "external selected repo path read failed '"@ + path + "': "@ + err@,
        ),
        ExternalFileProbe::Read(contents) => Ok(normalize_external_spec(contents@)),
    }
}

/// Reads the hand-over file from what the caller found at `path`.
pub fn load_external_selected_repo_path(path: &str, probe: ExternalFileProbe) -> (res: Result<
    Option<String>,
    String,
>)
    ensures
        match res {
            Ok(v) => load_external_spec(path@, probe) == Ok::<Option<Seq<char>>, Seq<char>>(
                opt_view(v),
            ),
            Err(e) => load_external_spec(path@, probe) == Err::<Option<Seq<char>>, Seq<char>>(
                e@,
            ),
        },
{
    match probe {
        ExternalFileProbe::Missing => Ok(None),
        ExternalFileProbe::NotAFile => {
            let mut m = crate::text::owned("external selected repo path is not a file: ");
            m.append(path);
            Err(m)
        },
        ExternalFileProbe::ReadFailed(err) => {
            let mut m = crate::text::owned("external selected repo path read failed '");
            m.append(path);
            m.append("': ");
            m.append(err.as_str());
            Err(m)
        },
        ExternalFileProbe::Read(contents) => Ok(
            normalize_external_selected_repo_path(contents.as_str()),
        ),
    }
}

} // verus!
