//! Contextual information that callers can provide to guide the validation
//! process.

use vstd::prelude::*;

use crate::path::FsPath;
use crate::validation::cache::{Cache, CacheEntry};
use crate::validation::filesystem::Options;
use crate::validation::{Reason, WebError};
use crate::Link;

verus! {

/// The User-Agent used by the default client.
pub const USER_AGENT: &'static str = "linkcheck/0.5.0";

#[verifier::external_type_specification]
#[verifier::external_body]
pub struct ExClient(reqwest::blocking::Client);

/// Contextual information that callers can provide to guide the validation
/// process: the resolution policy, the concurrency budget, the cache, the
/// probe capability and an ignore predicate.
pub trait Context: Sized {
    /// The resolution policy in force, as a specification-level value.
    spec fn spec_filesystem_options(&self) -> Options;

    /// Should this link be skipped, as a specification-level predicate?
    spec fn spec_should_ignore(&self, link: Link) -> bool;

    /// Options to use when checking a link on the filesystem.
    fn filesystem_options<'a>(&'a self) -> (r: &'a Options)
        ensures
            *r == self.spec_filesystem_options(),
    ;

    /// Should this [`Link`] be skipped?
    fn should_ignore(&self, link: &Link) -> (r: bool)
        ensures
            r == self.spec_should_ignore(*link),
    ;

    /// How many items should we check at a time?
    fn concurrency(&self) -> (r: usize)
        ensures
            r >= 1,
    ;

    /// How long a cached success vouches for its URL, in seconds.
    fn cache_timeout(&self) -> u64;

    /// Get any extra headers that should be sent when checking this URL.
    fn url_specific_headers(&self, url: &str) -> Vec<(String, String)>;

    /// The cached entry for `url`, if a cache is configured and holds one;
    /// `None` means either "no cache" or "no entry".
    fn cache_get(&self, url: &str) -> Option<CacheEntry>;

    /// Record the outcome of a probe of `url`, if a cache is configured.
    fn cache_put(&mut self, url: &str, entry: CacheEntry);

    /// Probe `url` over the network: attempt a lightweight retrieval with
    /// the given extra headers; a non-success status or a transport error is
    /// a failure. Nothing is promised of the outcome.
    fn probe(&mut self, url: &str, extra_headers: &Vec<(String, String)>) -> Result<(), WebError>;

    /// A check of the caller's own, run after a link resolves on disk.
    fn custom_validation(&self, path: &FsPath, fragment: Option<&String>) -> Result<(), Reason>;
}

/// A basic [`Context`] implementation which uses all the defaults.
#[derive(Debug)]
pub struct BasicContext {
    /// Options used when validating filesystem links.
    pub options: Options,
    /// Prior network-probe outcomes, consulted before probing again.
    pub cache: Cache,
    /// The HTTP client used by [`Context::probe`].
    pub client: reqwest::blocking::Client,
}

impl BasicContext {
    /// Create a [`BasicContext`] with an already initialized client.
    pub fn with_client(client: reqwest::blocking::Client) -> (r: BasicContext)
        ensures
            r.options.root_directory is None,
            !r.options.links_may_traverse_the_root_directory,
            r.options.follow_symlinks,
            r.cache.entries@.len() == 0,
            r.cache.wf(),
    {
        BasicContext { options: Options::new(), cache: Cache::new(), client }
    }
}

impl Default for BasicContext {
    /// A context with default options, an empty cache, and a client that
    /// identifies itself as this library.
    fn default() -> (r: BasicContext)
        ensures
            r.options.root_directory is None,
            !r.options.links_may_traverse_the_root_directory,
            r.options.follow_symlinks,
            r.cache.entries@.len() == 0,
            r.cache.wf(),
    {
        BasicContext::with_client(build_default_client())
    }
}

impl Context for BasicContext {
    open spec fn spec_filesystem_options(&self) -> Options {
        self.options
    }

    open spec fn spec_should_ignore(&self, link: Link) -> bool {
        false
    }

    fn filesystem_options<'a>(&'a self) -> (r: &'a Options) {
        &self.options
    }

    fn should_ignore(&self, link: &Link) -> (r: bool) {
        false
    }

    fn concurrency(&self) -> (r: usize) {
        64
    }

    fn cache_timeout(&self) -> u64 {
        // 24 hours should be a good default
        24 * 60 * 60
    }

    fn url_specific_headers(&self, url: &str) -> Vec<(String, String)> {
        Vec::new()
    }

    fn cache_get(&self, url: &str) -> Option<CacheEntry> {
        self.cache.lookup(url)
    }

    fn cache_put(&mut self, url: &str, entry: CacheEntry) {
        self.cache.insert(url.to_owned(), entry);
    }

    fn probe(&mut self, url: &str, extra_headers: &Vec<(String, String)>) -> Result<(), WebError> {
        blocking_head(&self.client, url, extra_headers)
    }

    fn custom_validation(&self, path: &FsPath, fragment: Option<&String>) -> Result<(), Reason> {
        Ok(())
    }
}

/// Relies on `reqwest::blocking::ClientBuilder`: `Client::builder`,
/// `user_agent` and `build` construct the HTTP client used for probes. As in
/// any misconfiguration discovered at construction time, a failure to build
/// the client is fatal.
#[verifier::external_body]
fn build_default_client() -> reqwest::blocking::Client {
    reqwest::blocking::Client::builder().user_agent(USER_AGENT).build().expect(
        "Unable to initialize the client",
    )
}

/// Relies on `reqwest::blocking`: `Client::head`, `RequestBuilder::header`,
/// `RequestBuilder::send` and `Response::error_for_status` issue a HEAD
/// request with the extra headers; a non-success status or a transport
/// error is a failure, reduced to its kind. The outcome depends on the
/// network, so nothing is promised of it.
#[verifier::external_body]
fn blocking_head(
    client: &reqwest::blocking::Client,
    url: &str,
    extra_headers: &Vec<(String, String)>,
) -> Result<(), WebError> {
    let mut request = client.head(url);
    for (name, value) in extra_headers.iter() {
        request = request.header(name.as_str(), value.as_str());
    }
    match request.send().and_then(|response| response.error_for_status()) {
        Ok(_) => Ok(()),
        Err(e) if e.is_timeout() => Err(WebError::Timeout),
        Err(e) => match e.status() {
            Some(status) => Err(WebError::Status(status.as_u16())),
            None => Err(WebError::Transport),
        },
    }
}

} // verus!
