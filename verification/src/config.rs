//! The settings that the client is run with.

use vstd::prelude::*;

verus! {

/// Limits on the client's requests.
#[derive(Debug, Clone)]
pub struct PerformanceConfig {
    pub request_timeout_ms: u64,
}

/// Settings of issue searches.
#[derive(Debug, Clone)]
pub struct JiraConfig {
    pub projects_filter: Vec<String>,
    pub search_default_fields: Option<Vec<String>>,
    pub search_custom_fields: Vec<String>,
}

/// Settings of page searches.
#[derive(Debug, Clone)]
pub struct ConfluenceConfig {
    pub spaces_filter: Vec<String>,
}

/// Settings of the response filter.
#[derive(Debug, Clone)]
pub struct OptimizationConfig {
    pub response_exclude_fields: Option<Vec<String>>,
}

/// All settings.
#[derive(Debug, Clone)]
pub struct Config {
    pub domain: Option<String>,
    pub email: Option<String>,
    pub token: Option<String>,
    pub base_url: String,
    pub performance: PerformanceConfig,
    pub jira: JiraConfig,
    pub confluence: ConfluenceConfig,
    pub optimization: OptimizationConfig,
}

/// The time that a request may take where nothing else is set, in
/// milliseconds.
pub const DEFAULT_REQUEST_TIMEOUT_MS: u64 = 30000;

/// The text of an optional string; empty where there is none.
pub open spec fn text_or_empty(s: Option<String>) -> Seq<char> {
    match s {
        Some(t) => t@,
        None => Seq::empty(),
    }
}

impl Default for PerformanceConfig {
    fn default() -> (r: Self)
        ensures
            r.request_timeout_ms == DEFAULT_REQUEST_TIMEOUT_MS,
    {
        PerformanceConfig { request_timeout_ms: DEFAULT_REQUEST_TIMEOUT_MS }
    }
}

impl Default for JiraConfig {
    fn default() -> (r: Self)
        ensures
            r.projects_filter@.len() == 0,
            r.search_default_fields is None,
            r.search_custom_fields@.len() == 0,
    {
        JiraConfig {
            projects_filter: Vec::new(),
            search_default_fields: None,
            search_custom_fields: Vec::new(),
        }
    }
}

impl Default for ConfluenceConfig {
    fn default() -> (r: Self)
        ensures
            r.spaces_filter@.len() == 0,
    {
        ConfluenceConfig { spaces_filter: Vec::new() }
    }
}

impl Default for OptimizationConfig {
    fn default() -> (r: Self)
        ensures
            r.response_exclude_fields is None,
    {
        OptimizationConfig { response_exclude_fields: None }
    }
}

impl Default for Config {
    fn default() -> (r: Self)
        ensures
            r.domain is None,
            r.email is None,
            r.token is None,
            r.base_url@.len() == 0,
            r.performance.request_timeout_ms == DEFAULT_REQUEST_TIMEOUT_MS,
            r.jira.projects_filter@.len() == 0,
            r.jira.search_default_fields is None,
            r.jira.search_custom_fields@.len() == 0,
            r.confluence.spaces_filter@.len() == 0,
            r.optimization.response_exclude_fields is None,
    {
        Config {
            domain: None,
            email: None,
            token: None,
            base_url: String::new(),
            performance: PerformanceConfig::default(),
            jira: JiraConfig::default(),
            confluence: ConfluenceConfig::default(),
            optimization: OptimizationConfig::default(),
        }
    }
}

impl Config {
    /// The address that the client signs in with; empty where none is set.
    pub fn email(&self) -> (r: &str)
        ensures
            r@ == text_or_empty(self.email),
    {
        match &self.email {
            Some(e) => e.as_str(),
            None => {
                proof {
                    reveal_strlit("");
                }
                assert(""@ =~= Seq::<char>::empty());
                ""
            },
        }
    }

    /// The token that the client signs in with; empty where none is set.
    pub fn token(&self) -> (r: &str)
        ensures
            r@ == text_or_empty(self.token),
    {
        match &self.token {
            Some(t) => t.as_str(),
            None => {
                proof {
                    reveal_strlit("");
                }
                assert(""@ =~= Seq::<char>::empty());
                ""
            },
        }
    }

    /// The address of the site, without a slash at its end.
    pub fn base_url(&self) -> (r: &str)
        ensures
            r@ == self.base_url@,
    {
        self.base_url.as_str()
    }
}

} // verus!
