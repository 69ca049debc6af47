//! The repository a request is addressed to, and the URL it came in under.

use vstd::prelude::*;

use crate::text::same_text;

verus! {

/// A repository, as its configuration stands when a request is answered.
#[derive(Debug)]
pub struct RepoInfo {
    pub id: u128,
    pub key: String,
    pub storage_path: String,
    pub storage_backend: String,
    pub repo_type: String,
    pub upstream_url: Option<String>,
    pub format: String,
    pub promotion_only: bool,
    pub age_gate_enabled: bool,
    pub age_gate_min_age_days: i32,
    pub age_gate_mode: String,
    pub curation_enabled: bool,
    pub curation_default_action: String,
}

impl RepoInfo {
    /// Whether the repository proxies an upstream.
    pub open spec fn remote(&self) -> bool {
        self.repo_type@ == "remote"@
    }

    /// Whether the repository stands for its member repositories.
    pub open spec fn aggregate(&self) -> bool {
        self.repo_type@ == "virtual"@
    }

    /// The configured upstream.
    pub open spec fn upstream(&self) -> Option<Seq<char>> {
        match self.upstream_url {
            Some(url) => Some(url@),
            None => None,
        }
    }

    /// Whether the repository proxies an upstream.
    pub fn is_remote(&self) -> (is: bool)
        ensures
            is == self.remote(),
    {
        same_text(self.repo_type.as_str(), "remote")
    }

    /// Whether the repository stands for its member repositories.
    pub fn is_virtual(&self) -> (is: bool)
        ensures
            is == self.aggregate(),
    {
        same_text(self.repo_type.as_str(), "virtual")
    }
}

/// The scheme and host that a client reached the server under.
#[derive(Debug)]
pub struct RequestBaseUrl(pub String);

impl RequestBaseUrl {
    /// The URL as text.
    pub fn as_str(&self) -> (url: &str)
        ensures
            url@ == self.0@,
    {
        self.0.as_str()
    }
}

} // verus!
