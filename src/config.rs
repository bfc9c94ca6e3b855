//! Configuration of the sources to sync and of cross-origin access.
use vstd::prelude::*;
use crate::text::{
    after_last_index, before_first, before_first_str, chars_eq, chars_of, last_index,
    lemma_last_index_bounds, owned, slice_owned, strip_prefixes, strip_prefixes_str,
};

verus! {

broadcast use vstd::string::group_string_axioms;

/// A Substack publication.
#[derive(Debug, Clone)]
pub struct SubstackConfig {
    pub enabled: bool,
    pub base_url: String,
}

/// A Bluesky account.
#[derive(Debug, Clone)]
pub struct BlueskyConfig {
    pub enabled: bool,
    pub handle: String,
}

/// One of possibly several Leaflet publications.
#[derive(Debug, Clone)]
pub struct LeafletConfig {
    pub enabled: bool,
    pub id: String,
    pub base_url: String,
}

/// One of possibly several BearBlog publications.
#[derive(Debug, Clone)]
pub struct BearBlogConfig {
    pub enabled: bool,
    pub id: String,
    pub base_url: String,
}

/// Where the database lives.
#[derive(Debug, Clone)]
pub struct DatabaseConfig {
    pub path: Option<String>,
}

impl Default for DatabaseConfig {
    fn default() -> (r: DatabaseConfig)
        ensures
            r.path is None,
    {
        DatabaseConfig { path: None }
    }
}

/// Settings of a Cloudflare deployment.
#[derive(Debug, Clone)]
pub struct CloudflareConfig {
    pub worker_name: String,
    pub d1_binding: String,
    pub database_name: String,
}

/// How the index is deployed.
#[derive(Debug, Clone)]
pub struct DeploymentConfig {
    pub mode: String,
    pub cloudflare: Option<CloudflareConfig>,
}

impl Default for DeploymentConfig {
    fn default() -> (r: DeploymentConfig)
        ensures
            r.mode@.len() == 0,
            r.cloudflare is None,
    {
        DeploymentConfig { mode: String::new(), cloudflare: None }
    }
}

/// The configured sources: at most one of each single-instance kind, and lists of the
/// multi-instance kinds.
#[derive(Debug, Clone)]
pub struct SourcesConfig {
    pub substack: Option<SubstackConfig>,
    pub bluesky: Option<BlueskyConfig>,
    pub leaflet: Vec<LeafletConfig>,
    pub bearblog: Vec<BearBlogConfig>,
}

impl Default for SourcesConfig {
    fn default() -> (r: SourcesConfig)
        ensures
            r.substack is None,
            r.bluesky is None,
            r.leaflet@.len() == 0,
            r.bearblog@.len() == 0,
    {
        SourcesConfig { substack: None, bluesky: None, leaflet: Vec::new(), bearblog: Vec::new() }
    }
}

/// Which browser origins may call the HTTP API, and an optional key for local development.
#[derive(Debug, Clone)]
pub struct CorsConfig {
    /// Origins allowed exactly, or together with every origin of the same root domain.
    pub allowed_origins: Vec<String>,
    /// Requests that carry this key are allowed.
    pub dev_key: Option<String>,
}

impl Default for CorsConfig {
    fn default() -> (r: CorsConfig)
        ensures
            r.allowed_origins@.len() == 0,
            r.dev_key is None,
    {
        CorsConfig { allowed_origins: Vec::new(), dev_key: None }
    }
}

/// The whole configuration.
#[derive(Debug, Clone)]
pub struct Config {
    pub database: DatabaseConfig,
    pub deployment: DeploymentConfig,
    pub sources: SourcesConfig,
    pub cors: CorsConfig,
}

impl Default for Config {
    fn default() -> (r: Config)
        ensures
            r.database.path is None,
            r.sources.substack is None,
            r.sources.bluesky is None,
            r.sources.leaflet@.len() == 0,
            r.sources.bearblog@.len() == 0,
            r.cors.allowed_origins@.len() == 0,
            r.cors.dev_key is None,
    {
        Config {
            database: DatabaseConfig::default(),
            deployment: DeploymentConfig::default(),
            sources: SourcesConfig::default(),
            cors: CorsConfig::default(),
        }
    }
}

pub open spec fn https_prefix() -> Seq<char> {
    seq!['h', 't', 't', 'p', 's', ':', '/', '/']
}

pub open spec fn http_prefix() -> Seq<char> {
    seq!['h', 't', 't', 'p', ':', '/', '/']
}

/// `url` without any leading `https://`, then without any leading `http://`.
pub open spec fn without_scheme(url: Seq<char>) -> Seq<char> {
    strip_prefixes(strip_prefixes(url, https_prefix()), http_prefix())
}

/// The host of `url`: no scheme, no path, no port.
pub open spec fn domain_of(url: Seq<char>) -> Seq<char> {
    before_first(before_first(without_scheme(url), '/'), ':')
}

/// The last two dot-separated labels of `domain`, when it has at least two.
pub open spec fn root_domain_of(domain: Seq<char>) -> Option<Seq<char>> {
    let j = last_index(domain, '.');
    if j < 0 {
        None
    } else {
        Some(domain.subrange(last_index(domain.subrange(0, j), '.') + 1, domain.len() as int))
    }
}

/// `origin` is allowed by the entry `allowed`: the same text, or hosts with the same
/// root domain.
pub open spec fn allows(allowed: Seq<char>, origin: Seq<char>) -> bool {
    allowed == origin || (root_domain_of(domain_of(origin)) is Some && root_domain_of(
        domain_of(allowed),
    ) == root_domain_of(domain_of(origin)))
}

/// Removes the scheme from `url`.
pub fn strip_scheme(url: &str) -> (r: String)
    ensures
        r@ == without_scheme(url@),
{
    let https = "https://";
    let http = "http://";
    proof {
        reveal_strlit("https://");
        reveal_strlit("http://");
        assert(https@ =~= https_prefix());
        assert(http@ =~= http_prefix());
    }
    let a = strip_prefixes_str(url, https);
    strip_prefixes_str(a.as_str(), http)
}

/// The host part of a URL: without scheme, path and port.
pub fn extract_domain(url: &str) -> (r: String)
    ensures
        r@ == domain_of(url@),
{
    let a = strip_scheme(url);
    let b = before_first_str(a.as_str(), '/');
    before_first_str(b.as_str(), ':')
}

/// The last two labels of a domain ("pai.example.dev" gives "example.dev"); none for a
/// single label.
pub fn extract_root_domain(domain: &str) -> (r: Option<String>)
    ensures
        opt_string_view(r) == root_domain_of(domain@),
{
    let cs = chars_of(domain);
    let n = cs.len();
    let j1 = after_last_index(&cs, '.', n);
    assert(cs@.subrange(0, n as int) =~= cs@);
    if j1 == 0 {
        return None;
    }
    proof {
        lemma_last_index_bounds(domain@, '.');
        lemma_last_index_bounds(domain@.subrange(0, j1 - 1), '.');
    }
    let k1 = after_last_index(&cs, '.', j1 - 1);
    Some(slice_owned(domain, k1, n))
}

pub open spec fn opt_string_view(o: Option<String>) -> Option<Seq<char>> {
    match o {
        Some(s) => Some(s@),
        None => None,
    }
}

/// The allowed origins as character sequences.
pub open spec fn origins_view(v: Seq<String>) -> Seq<Seq<char>> {
    v.map_values(|s: String| s@)
}

impl CorsConfig {
    /// Whether `origin` is allowed: some allowed origin equals it, or has the same root
    /// domain (hosts of a single label, such as `localhost`, need the exact origin).
    pub fn is_origin_allowed(&self, origin: &str) -> (r: bool)
        ensures
            r == exists|i: int|
                0 <= i < self.allowed_origins@.len() && allows(
                    #[trigger] self.allowed_origins@[i]@,
                    origin@,
                ),
    {
        if self.allowed_origins.len() == 0 {
            return false;
        }
        let oc = chars_of(origin);
        let origin_root = extract_root_domain(extract_domain(origin).as_str());
        let mut i: usize = 0;
        while i < self.allowed_origins.len()
            invariant
                i <= self.allowed_origins@.len(),
                oc@ == origin@,
                opt_string_view(origin_root) == root_domain_of(domain_of(origin@)),
                forall|j: int| 0 <= j < i ==> !allows(#[trigger] self.allowed_origins@[j]@, origin@),
            decreases self.allowed_origins.len() - i,
        {
            let allowed = &self.allowed_origins[i];
            if chars_eq(&oc, &chars_of(allowed.as_str())) {
                return true;
            }
            if let Some(o) = &origin_root {
                let allowed_root = extract_root_domain(extract_domain(allowed.as_str()).as_str());
                if let Some(a) = &allowed_root {
                    if chars_eq(&chars_of(o.as_str()), &chars_of(a.as_str())) {
                        return true;
                    }
                }
            }
            i += 1;
        }
        false
    }

    /// Whether `key` is present and equals the configured development key.
    pub fn is_dev_key_valid(&self, key: Option<&str>) -> (r: bool)
        ensures
            r == (self.dev_key is Some && key is Some && self.dev_key->0@ == key->0@),
    {
        match (&self.dev_key, key) {
            (Some(config_key), Some(request_key)) => chars_eq(
                &chars_of(config_key.as_str()),
                &chars_of(request_key),
            ),
            _ => false,
        }
    }
}

} // verus!
