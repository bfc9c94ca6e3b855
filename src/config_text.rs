//! Reading the configuration from TOML text.
use vstd::prelude::*;
use crate::config::{
    BearBlogConfig, BlueskyConfig, CloudflareConfig, Config, CorsConfig, DatabaseConfig,
    DeploymentConfig, LeafletConfig, SourcesConfig, SubstackConfig,
};
use crate::error::PaiError;
use crate::text::{joined, owned};

verus! {

broadcast use vstd::string::group_string_axioms;

#[verifier::external_type_specification]
#[verifier::external_body]
pub struct ExJsonValue(serde_json::Value);

/// Relies on serde_json::Value::pointer: the value at a JSON pointer, if there is one.
pub assume_specification<'a>[ serde_json::Value::pointer ](
    v: &'a serde_json::Value,
    pointer: &str,
) -> Option<&'a serde_json::Value>;

/// Relies on serde_json::Value::as_str: the text of a JSON string.
pub assume_specification<'a>[ serde_json::Value::as_str ](v: &'a serde_json::Value) -> Option<
    &'a str,
>;

/// Relies on serde_json::Value::as_array: the elements of a JSON array.
pub assume_specification<'a>[ serde_json::Value::as_array ](v: &'a serde_json::Value) -> Option<
    &'a Vec<serde_json::Value>,
>;

/// Relies on serde_json::Value::is_null: whether the value is JSON `null`.
pub assume_specification[ serde_json::Value::is_null ](v: &serde_json::Value) -> bool;

/// Relies on serde_json::Value::is_object: whether the value is a JSON object.
pub assume_specification[ serde_json::Value::is_object ](v: &serde_json::Value) -> bool;

/// Relies on serde_json::Value::as_bool: the value of a JSON boolean.
pub assume_specification[ serde_json::Value::as_bool ](v: &serde_json::Value) -> Option<bool>;

/// Relies on toml::from_str: reads a TOML document into a JSON-shaped value, each table
/// an object; fails on text that is no TOML.
#[verifier::external_body]
fn parse_toml(text: &str) -> (r: Result<serde_json::Value, String>) {
    toml::from_str::<serde_json::Value>(text).map_err(|e| e.to_string())
}

fn config_error(what: &str) -> (r: PaiError)
    ensures
        r is Config,
{
    PaiError::Config(joined("Failed to parse config: ", what))
}

/// The value at `pointer`, which must be absent or a table.
fn table_at<'a>(v: &'a serde_json::Value, pointer: &str) -> (r: Result<Option<&'a serde_json::Value>, PaiError>)
    ensures
        r is Err ==> r->Err_0 is Config,
{
    match v.pointer(pointer) {
        Some(t) => if t.is_object() {
            Ok(Some(t))
        } else {
            Err(config_error("expected a table"))
        },
        None => Ok(None),
    }
}

/// The text at `pointer`, which must be present.
fn required_text(v: &serde_json::Value, pointer: &str) -> (r: Result<String, PaiError>)
    ensures
        r is Err ==> r->Err_0 is Config,
{
    match v.pointer(pointer) {
        Some(x) => match x.as_str() {
            Some(s) => Ok(owned(s)),
            None => Err(config_error("expected a string")),
        },
        None => Err(config_error("missing field")),
    }
}

/// The text at `pointer`, if present.
fn optional_text(v: &serde_json::Value, pointer: &str) -> (r: Result<Option<String>, PaiError>)
    ensures
        r is Err ==> r->Err_0 is Config,
{
    match v.pointer(pointer) {
        Some(x) => match x.as_str() {
            Some(s) => Ok(Some(owned(s))),
            None => Err(config_error("expected a string")),
        },
        None => Ok(None),
    }
}

/// The flag at `pointer`; false when absent.
fn flag(v: &serde_json::Value, pointer: &str) -> (r: Result<bool, PaiError>)
    ensures
        r is Err ==> r->Err_0 is Config,
{
    match v.pointer(pointer) {
        Some(x) => match x.as_bool() {
            Some(b) => Ok(b),
            None => Err(config_error("expected a boolean")),
        },
        None => Ok(false),
    }
}

/// The array at `pointer`; none when absent.
fn list_at<'a>(v: &'a serde_json::Value, pointer: &str) -> (r: Result<Option<&'a Vec<serde_json::Value>>, PaiError>)
    ensures
        r is Err ==> r->Err_0 is Config,
{
    match v.pointer(pointer) {
        Some(x) => match x.as_array() {
            Some(a) => Ok(Some(a)),
            None => Err(config_error("expected an array")),
        },
        None => Ok(None),
    }
}

/// Reads the `id` / `base_url` / `enabled` fields of a publication entry.
fn publication(e: &serde_json::Value) -> (r: Result<(bool, String, String), PaiError>)
    ensures
        r is Err ==> r->Err_0 is Config,
{
    if !e.is_object() {
        return Err(config_error("expected a table"));
    }
    let enabled = flag(e, "/enabled")?;
    let id = required_text(e, "/id")?;
    let base_url = required_text(e, "/base_url")?;
    Ok((enabled, id, base_url))
}

fn leaflet_list(doc: &serde_json::Value) -> (r: Result<Vec<LeafletConfig>, PaiError>)
    ensures
        r is Err ==> r->Err_0 is Config,
{
    let mut out: Vec<LeafletConfig> = Vec::new();
    if let Some(entries) = list_at(doc, "/sources/leaflet")? {
        let mut i: usize = 0;
        while i < entries.len()
            decreases entries.len() - i,
        {
            let (enabled, id, base_url) = publication(&entries[i])?;
            out.push(LeafletConfig { enabled, id, base_url });
            i += 1;
        }
    }
    Ok(out)
}

fn bearblog_list(doc: &serde_json::Value) -> (r: Result<Vec<BearBlogConfig>, PaiError>)
    ensures
        r is Err ==> r->Err_0 is Config,
{
    let mut out: Vec<BearBlogConfig> = Vec::new();
    if let Some(entries) = list_at(doc, "/sources/bearblog")? {
        let mut i: usize = 0;
        while i < entries.len()
            decreases entries.len() - i,
        {
            let (enabled, id, base_url) = publication(&entries[i])?;
            out.push(BearBlogConfig { enabled, id, base_url });
            i += 1;
        }
    }
    Ok(out)
}

fn origin_list(doc: &serde_json::Value) -> (r: Result<Vec<String>, PaiError>)
    ensures
        r is Err ==> r->Err_0 is Config,
{
    let mut out: Vec<String> = Vec::new();
    if let Some(entries) = list_at(doc, "/cors/allowed_origins")? {
        let mut i: usize = 0;
        while i < entries.len()
            decreases entries.len() - i,
        {
            match entries[i].as_str() {
                Some(s) => out.push(owned(s)),
                None => return Err(config_error("expected a string")),
            }
            i += 1;
        }
    }
    Ok(out)
}

impl Config {
    /// Reads a configuration from TOML text. Every section is optional; a present source
    /// needs its address (`base_url`, `handle`, and `id` for publications), `enabled`
    /// defaults to false, and a field of the wrong type is a configuration error.
    pub fn parse(text: &str) -> (r: Result<Config, PaiError>)
        ensures
            r is Err ==> r->Err_0 is Config,
    {
        let doc = match parse_toml(text) {
            Ok(d) => d,
            Err(msg) => return Err(config_error(msg.as_str())),
        };
        table_at(&doc, "/database")?;
        table_at(&doc, "/deployment")?;
        table_at(&doc, "/sources")?;
        table_at(&doc, "/cors")?;
        let database = DatabaseConfig { path: optional_text(&doc, "/database/path")? };
        let mode = match optional_text(&doc, "/deployment/mode")? {
            Some(m) => m,
            None => String::new(),
        };
        let cloudflare = match table_at(&doc, "/deployment/cloudflare")? {
            Some(c) => Some(
                CloudflareConfig {
                    worker_name: required_text(c, "/worker_name")?,
                    d1_binding: required_text(c, "/d1_binding")?,
                    database_name: required_text(c, "/database_name")?,
                },
            ),
            None => None,
        };
        let substack = match table_at(&doc, "/sources/substack")? {
            Some(s) => Some(
                SubstackConfig { enabled: flag(s, "/enabled")?, base_url: required_text(s, "/base_url")? },
            ),
            None => None,
        };
        let bluesky = match table_at(&doc, "/sources/bluesky")? {
            Some(b) => Some(
                BlueskyConfig { enabled: flag(b, "/enabled")?, handle: required_text(b, "/handle")? },
            ),
            None => None,
        };
        let leaflet = leaflet_list(&doc)?;
        let bearblog = bearblog_list(&doc)?;
        let cors = CorsConfig {
            allowed_origins: origin_list(&doc)?,
            dev_key: optional_text(&doc, "/cors/dev_key")?,
        };
        Ok(
            Config {
                database,
                deployment: DeploymentConfig { mode, cloudflare },
                sources: SourcesConfig { substack, bluesky, leaflet, bearblog },
                cors,
            },
        )
    }
}

impl std::str::FromStr for Config {
    type Err = PaiError;

    fn from_str(s: &str) -> Result<Config, PaiError> {
        Config::parse(s)
    }
}

} // verus!
