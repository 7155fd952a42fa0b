//! Application settings: where attachments are stored, and how the key/value settings are
//! read through their cache and written.
use crate::error::{CoreError, IpcError};
use crate::sql::{arg_views, SqlArg, SqlBuilder, SqlQuery, SqlValue};
use crate::text::{chars_of, contains_text, str_contains, str_equals, string_from_chars, trim_chars, trim_ws};
use vstd::prelude::*;

verus! {

/// Key of the stored storage configuration.
pub const STORAGE_CONFIG_KEY: &'static str = "storage_config";

/// Attachments kept as database blobs.
pub const STORAGE_TYPE_DATABASE: &'static str = "DATABASE";

/// Attachments kept as local files.
pub const STORAGE_TYPE_LOCAL: &'static str = "LOCAL";

/// Where attachments go and how their files are named.
#[derive(Debug, Clone)]
pub struct StorageConfig {
    /// `"AUTO"`, `"DATABASE"` or `"LOCAL"`; AUTO picks by size.
    pub storage_type: String,
    /// Directory of local files, relative to the data directory unless absolute.
    pub local_storage_path: String,
    /// File name template (`{uid}`, `{filename}`, `{timestamp}`, `{uuid}`).
    pub filepath_template: String,
    /// Size in bytes from which AUTO stores a local file.
    pub auto_threshold: u64,
}

/// Default storage kind.
pub fn default_storage_type() -> (s: String)
    ensures
        s@ == "AUTO"@,
{
    String::from_str("AUTO")
}

/// Default directory of local files.
pub fn default_local_storage_path() -> (s: String)
    ensures
        s@ == "attachments"@,
{
    String::from_str("attachments")
}

/// Default file name template.
pub fn default_filepath_template() -> (s: String)
    ensures
        s@ == "{uid}_{filename}"@,
{
    String::from_str("{uid}_{filename}")
}

/// Default AUTO threshold: 1 MiB.
pub fn default_auto_threshold() -> (n: u64)
    ensures
        n == 1048576,
{
    1048576
}

impl StorageConfig {
    /// AUTO storage in `attachments`, default template, 1 MiB threshold.
    pub fn default_config() -> (c: StorageConfig)
        ensures
            c.storage_type@ == "AUTO"@,
            c.local_storage_path@ == "attachments"@,
            c.filepath_template@ == "{uid}_{filename}"@,
            c.auto_threshold == 1048576,
    {
        StorageConfig {
            storage_type: default_storage_type(),
            local_storage_path: default_local_storage_path(),
            filepath_template: default_filepath_template(),
            auto_threshold: default_auto_threshold(),
        }
    }
}

/// Where an attachment of `len` bytes goes: as configured for DATABASE and LOCAL; by size
/// otherwise (local from the threshold on).
pub open spec fn storage_for(cfg: StorageConfig, len: nat) -> Seq<char> {
    if cfg.storage_type@ == "DATABASE"@ {
        "DATABASE"@
    } else if cfg.storage_type@ == "LOCAL"@ {
        "LOCAL"@
    } else if len >= cfg.auto_threshold {
        "LOCAL"@
    } else {
        "DATABASE"@
    }
}

/// The storage kind for an attachment of `blob_len` bytes.
pub fn resolve_storage_type(cfg: &StorageConfig, blob_len: usize) -> (r: &'static str)
    ensures
        r@ == storage_for(*cfg, blob_len as nat),
{
    if str_equals(cfg.storage_type.as_str(), "DATABASE") {
        STORAGE_TYPE_DATABASE
    } else if str_equals(cfg.storage_type.as_str(), "LOCAL") {
        STORAGE_TYPE_LOCAL
    } else if blob_len as u64 >= cfg.auto_threshold {
        STORAGE_TYPE_LOCAL
    } else {
        STORAGE_TYPE_DATABASE
    }
}


/// A storage configuration as saved: the template is trimmed and must not be empty nor
/// climb out of its directory (`..`).
pub fn check_storage_config(req: StorageConfig) -> (r: Result<StorageConfig, IpcError>)
    ensures
        trim_ws(req.filepath_template@).len() == 0 ==> (r matches Err(IpcError::BadRequest(m))
            && m@ == "文件名模板不能为空"@),
        trim_ws(req.filepath_template@).len() > 0 && contains_text(
            trim_ws(req.filepath_template@),
            ".."@,
        ) ==> (r matches Err(IpcError::BadRequest(m)) && m@ == "文件名模板包含非法路径"@),
        trim_ws(req.filepath_template@).len() > 0 && !contains_text(
            trim_ws(req.filepath_template@),
            ".."@,
        ) ==> (r matches Ok(c) && c.filepath_template@ == trim_ws(req.filepath_template@)
            && c.storage_type == req.storage_type && c.local_storage_path
            == req.local_storage_path && c.auto_threshold == req.auto_threshold),
{
    let t = chars_of(req.filepath_template.as_str());
    let tt = trim_chars(t.as_slice());
    if tt.len() == 0 {
        return Err(IpcError::BadRequest(String::from_str("文件名模板不能为空")));
    }
    let template = string_from_chars(tt.as_slice());
    if str_contains(template.as_str(), "..") {
        return Err(IpcError::BadRequest(String::from_str("文件名模板包含非法路径")));
    }
    Ok(
        StorageConfig {
            storage_type: req.storage_type,
            local_storage_path: req.local_storage_path,
            filepath_template: template,
            auto_threshold: req.auto_threshold,
        },
    )
}

/// The two tables of key/value settings.
#[derive(Debug, Clone, Copy, PartialEq, Eq)]
pub enum SettingTable {
    /// `app_setting`, keyed by `key`.
    App,
    /// `instance_setting`, keyed by `name`, with a description.
    Instance,
}

/// The statement that reads one setting.
pub fn setting_get_query(table: SettingTable, key: &str) -> (q: SqlQuery)
    ensures
        q.sql@ == match table {
            SettingTable::App => "SELECT value FROM app_setting WHERE key = ?"@,
            SettingTable::Instance => "SELECT value FROM instance_setting WHERE name = ?"@,
        },
        arg_views(q.args@) == seq![SqlArg::Text(key@)],
{
    let mut b = SqlBuilder::new();
    match table {
        SettingTable::App => b.push_str("SELECT value FROM app_setting WHERE key = ?"),
        SettingTable::Instance => b.push_str("SELECT value FROM instance_setting WHERE name = ?"),
    }
    b.bind(SqlValue::Text(String::from_str(key)));
    assert(arg_views(b.args@) =~= seq![SqlArg::Text(key@)]);
    b.finish()
}

/// The statement that writes one setting (the description only in the instance table).
pub fn setting_upsert_query(table: SettingTable, key: &str, value: &str, description: &str) -> (q:
    SqlQuery)
    ensures
        table == SettingTable::App ==> q.sql@
            == "INSERT INTO app_setting (key, value) VALUES (?1, ?2) ON CONFLICT(key) DO UPDATE SET value=excluded.value"@
            && arg_views(q.args@) == seq![SqlArg::Text(key@), SqlArg::Text(value@)],
        table == SettingTable::Instance ==> q.sql@
            == "INSERT INTO instance_setting (name, value, description) VALUES (?1, ?2, ?3) ON CONFLICT(name) DO UPDATE SET value=excluded.value, description=excluded.description"@
            && arg_views(q.args@) == seq![
            SqlArg::Text(key@),
            SqlArg::Text(value@),
            SqlArg::Text(description@),
        ],
{
    let mut b = SqlBuilder::new();
    match table {
        SettingTable::App => {
            b.push_str(
                "INSERT INTO app_setting (key, value) VALUES (?1, ?2) ON CONFLICT(key) DO UPDATE SET value=excluded.value",
            );
            b.bind(SqlValue::Text(String::from_str(key)));
            b.bind(SqlValue::Text(String::from_str(value)));
            assert(arg_views(b.args@) =~= seq![SqlArg::Text(key@), SqlArg::Text(value@)]);
        },
        SettingTable::Instance => {
            b.push_str(
                "INSERT INTO instance_setting (name, value, description) VALUES (?1, ?2, ?3) ON CONFLICT(name) DO UPDATE SET value=excluded.value, description=excluded.description",
            );
            b.bind(SqlValue::Text(String::from_str(key)));
            b.bind(SqlValue::Text(String::from_str(value)));
            b.bind(SqlValue::Text(String::from_str(description)));
            assert(arg_views(b.args@) =~= seq![
                SqlArg::Text(key@),
                SqlArg::Text(value@),
                SqlArg::Text(description@),
            ]);
        },
    }
    b.finish()
}

/// The statement that deletes one setting.
pub fn setting_delete_query(table: SettingTable, key: &str) -> (q: SqlQuery)
    ensures
        q.sql@ == match table {
            SettingTable::App => "DELETE FROM app_setting WHERE key = ?"@,
            SettingTable::Instance => "DELETE FROM instance_setting WHERE name = ?"@,
        },
        arg_views(q.args@) == seq![SqlArg::Text(key@)],
{
    let mut b = SqlBuilder::new();
    match table {
        SettingTable::App => b.push_str("DELETE FROM app_setting WHERE key = ?"),
        SettingTable::Instance => b.push_str("DELETE FROM instance_setting WHERE name = ?"),
    }
    b.bind(SqlValue::Text(String::from_str(key)));
    assert(arg_views(b.args@) =~= seq![SqlArg::Text(key@)]);
    b.finish()
}

/// What a setting read does once the cache was asked: a cached value is the answer;
/// otherwise the stored value is, and it is put in the cache when there is one.
pub fn settle_setting_read(cached: Option<String>, stored: Option<String>) -> (r: (
    Option<String>,
    bool,
))
    ensures
        cached is Some ==> r.0 == cached && !r.1,
        cached is None ==> r.0 == stored && r.1 == (stored is Some),
{
    match cached {
        Some(v) => (Some(v), false),
        None => {
            let remember = stored.is_some();
            (stored, remember)
        },
    }
}

/// The error for a missing setting: `setting {key}`.
pub fn setting_not_found(key: &str) -> (e: CoreError)
    ensures
        e matches CoreError::NotFound(m) && m@ == "setting "@ + key@,
{
    let mut m = String::from_str("setting ");
    m.append(key);
    CoreError::NotFound(m)
}

} // verus!
