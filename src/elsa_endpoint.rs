//! Resolution of a release key: the cache-aside protocol that asks the
//! manifest service, fetches the manifest and stores the rules derived from it.
//!
//! The protocol is a state machine. [`ElsaEndpoint::start`] opens a
//! [`Resolution`] and names the first [`Action`]; whoever drives it
//! performs each action and hands back what came of it as an [`Event`] to
//! [`Resolution::step`], until the action is `Done` or `Fail`.
use vstd::prelude::*;

use crate::cache::CacheItem;
use crate::manifest::{spec_translate, ElsaManifest, ElsaResponse, ManifestFault};
use crate::resolver::{duplicate_all, views, Resolver, ResolverView};
use crate::Error;

verus! {

/// The path under which the manifest service answers.
pub const ENDPOINT_PATH: &'static str = "/api/manifest/htsget";

/// The prefix of the cache keys.
pub const CACHE_PATH: &'static str = "htsget-manifest-cache";

/// The cache key of a release: `<CACHE_PATH>/<release key>`.
pub open spec fn spec_cache_key(release_key: Seq<char>) -> Seq<char> {
    CACHE_PATH@ + seq!['/'] + release_key
}

/// The path and query that ask for the manifest location of a release.
pub open spec fn spec_path_and_query(release_key: Seq<char>) -> Seq<char> {
    ENDPOINT_PATH@ + seq!['/'] + release_key + seq!['?', 't', 'y', 'p', 'e', '=', 'S', '3']
}

/// The full request URI.
pub open spec fn spec_request_uri(scheme: Seq<char>, authority: Seq<char>, release_key: Seq<char>) -> Seq<char> {
    scheme + seq![':', '/', '/'] + authority + spec_path_and_query(release_key)
}

/// Whether the scheme, authority and path with query form a valid URI.
pub uninterp spec fn uri_builds(scheme: Seq<char>, authority: Seq<char>, path_and_query: Seq<char>) -> bool;

/// Relies on http::Uri::builder: whether the scheme, authority and path
/// with query form a valid URI.
#[verifier::external_body]
fn builds_uri(scheme: &str, authority: &str, path_and_query: &str) -> (r: bool)
    ensures
        r == uri_builds(scheme@, authority@, path_and_query@),
{
    http::Uri::builder().scheme(scheme).authority(authority).path_and_query(path_and_query).build().is_ok()
}

/// Whether the text parses as an absolute URL.
pub uninterp spec fn url_parses(text: Seq<char>) -> bool;

/// Relies on reqwest::Url::parse, the url crate's parser: whether the text
/// is a valid absolute URL.
#[verifier::external_body]
fn parses_as_url(text: &str) -> (r: bool)
    ensures
        r == url_parses(text@),
{
    reqwest::Url::parse(text).is_ok()
}

/// The request URI of a release is accepted: its parts build a URI, and
/// its text parses as a URL.
pub open spec fn uri_accepted(scheme: Seq<char>, authority: Seq<char>, release_key: Seq<char>) -> bool {
    uri_builds(scheme, authority, spec_path_and_query(release_key)) && url_parses(
        spec_request_uri(scheme, authority, release_key),
    )
}

/// The cache key of a release.
pub fn cache_key(release_key: &str) -> (r: String)
    ensures
        r@ == spec_cache_key(release_key@),
{
    proof {
        reveal_strlit("/");
    }
    let mut r = String::from_str(CACHE_PATH);
    r.append("/");
    r.append(release_key);
    r
}

fn path_and_query(release_key: &str) -> (r: String)
    ensures
        r@ == spec_path_and_query(release_key@),
{
    proof {
        reveal_strlit("/");
        reveal_strlit("?type=S3");
    }
    let mut r = String::from_str(ENDPOINT_PATH);
    r.append("/");
    r.append(release_key);
    r.append("?type=S3");
    r
}

fn uri_text(scheme: &str, authority: &str, release_key: &str) -> (r: String)
    ensures
        r@ == spec_request_uri(scheme@, authority@, release_key@),
{
    proof {
        reveal_strlit("://");
    }
    let mut r = String::from_str(scheme);
    r.append("://");
    r.append(authority);
    let pq = path_and_query(release_key);
    r.append(pq.as_str());
    r
}

/// The request URI of a release, given whether it was accepted: the URI
/// where it was, else `InvalidReleaseUri` carrying the key.
pub fn request_uri_from_parts(scheme: &str, authority: &str, release_key: &str, valid: bool) -> (r:
    Result<String, Error>)
    ensures
        valid ==> (r matches Ok(u) && u@ == spec_request_uri(scheme@, authority@, release_key@)),
        !valid ==> (r matches Err(Error::InvalidReleaseUri(k)) && k@ == release_key@),
{
    if !valid {
        return Err(Error::InvalidReleaseUri(String::from_str(release_key)));
    }
    Ok(uri_text(scheme, authority, release_key))
}

/// Whether a status code reports success.
pub open spec fn is_success(status: u16) -> bool {
    200 <= status < 300
}

/// Accepts a response of the manifest service with a success status;
/// any other status fails with `GetManifest`, carrying its text.
pub fn check_status(status: u16, status_text: String) -> (r: Result<(), Error>)
    ensures
        is_success(status) ==> r is Ok,
        !is_success(status) ==> (r matches Err(Error::GetManifest(t)) && t == status_text),
{
    if 200 <= status && status < 300 {
        Ok(())
    } else {
        Err(Error::GetManifest(status_text))
    }
}

/// The manifest service of one deployment: where it answers and over
/// which scheme.
#[derive(Debug)]
pub struct ElsaEndpoint {
    endpoint: String,
    scheme: String,
}

impl ElsaEndpoint {
    pub closed spec fn authority_view(&self) -> Seq<char> {
        self.endpoint@
    }

    pub closed spec fn scheme_view(&self) -> Seq<char> {
        self.scheme@
    }

    /// An endpoint reached over https.
    pub fn new(endpoint: String) -> (r: ElsaEndpoint)
        ensures
            r.authority_view() == endpoint@,
            r.scheme_view() == "https"@,
    {
        ElsaEndpoint { endpoint, scheme: String::from_str("https") }
    }

    /// An endpoint reached over the given scheme.
    pub fn new_with_scheme(endpoint: String, scheme: String) -> (r: ElsaEndpoint)
        ensures
            r.authority_view() == endpoint@,
            r.scheme_view() == scheme@,
    {
        ElsaEndpoint { endpoint, scheme }
    }

    pub fn authority(&self) -> (r: &str)
        ensures
            r@ == self.authority_view(),
    {
        self.endpoint.as_str()
    }

    pub fn scheme(&self) -> (r: &str)
        ensures
            r@ == self.scheme_view(),
    {
        self.scheme.as_str()
    }

    /// The URI that asks the manifest service for the manifest location of
    /// a release; `InvalidReleaseUri` where its parts do not build a URI or
    /// its text does not parse as a URL.
    pub fn request_uri(&self, release_key: &str) -> (r: Result<String, Error>)
        ensures
            uri_accepted(self.scheme_view(), self.authority_view(), release_key@) ==> (r matches Ok(u) && u@ == spec_request_uri(
                self.scheme_view(),
                self.authority_view(),
                release_key@,
            )),
            !uri_accepted(self.scheme_view(), self.authority_view(), release_key@) ==> (r matches Err(Error::InvalidReleaseUri(k)) && k@ == release_key@),
    {
        let pq = path_and_query(release_key);
        let text = uri_text(self.scheme.as_str(), self.endpoint.as_str(), release_key);
        let valid = builds_uri(self.scheme.as_str(), self.endpoint.as_str(), pq.as_str())
            && parses_as_url(text.as_str());
        request_uri_from_parts(self.scheme.as_str(), self.endpoint.as_str(), release_key, valid)
    }

    /// Opens the resolution of a release; its first action reads the cache.
    pub fn start(&self, release_key: &str) -> (r: (Resolution, Action))
        ensures
            r.0.phase() == Phase::AwaitCache,
            r.0.release_key() == release_key@,
            r.0.authority() == self.authority_view(),
            r.0.scheme() == self.scheme_view(),
            r.1 matches Action::ReadCache { key } && key@ == spec_cache_key(release_key@),
    {
        let resolution = Resolution {
            release_key: String::from_str(release_key),
            endpoint: ElsaEndpoint {
                endpoint: self.endpoint.clone(),
                scheme: self.scheme.clone(),
            },
            phase: Phase::AwaitCache,
            max_age: 0,
            rules: Vec::new(),
        };
        (resolution, Action::ReadCache { key: cache_key(release_key) })
    }
}

/// What the driver of a resolution is to do next.
#[derive(Debug)]
pub enum Action {
    /// Look the rules up in the cache under `key`.
    ReadCache { key: String },
    /// Ask the manifest service at `uri` where the manifest is stored.
    FetchLocation { uri: String },
    /// Fetch the manifest object and decode it.
    FetchManifest { bucket: String, key: String },
    /// Store the item in the cache under `key`.
    Store { key: String, item: CacheItem },
    /// The resolution has finished with these rules.
    Done(Vec<Resolver>),
    /// The resolution has failed.
    Fail(Error),
}

/// What came of the last action. A cache read that failed is a miss.
#[derive(Debug)]
pub enum Event {
    CacheRead(Option<Vec<Resolver>>),
    LocationFetched(Result<ElsaResponse, Error>),
    ManifestFetched(Result<ElsaManifest, Error>),
    Stored(Result<(), Error>),
}

/// The stage a resolution has reached: the event it waits for.
#[derive(Clone, Copy, Debug, PartialEq, Eq, Structural)]
pub enum Phase {
    AwaitCache,
    AwaitLocation,
    AwaitManifest,
    AwaitStore,
    Finished,
}

/// The state of one resolution.
#[derive(Debug)]
pub struct Resolution {
    release_key: String,
    endpoint: ElsaEndpoint,
    phase: Phase,
    max_age: u64,
    rules: Vec<Resolver>,
}

impl Resolution {
    pub closed spec fn phase(&self) -> Phase {
        self.phase
    }

    pub closed spec fn release_key(&self) -> Seq<char> {
        self.release_key@
    }

    pub closed spec fn authority(&self) -> Seq<char> {
        self.endpoint.endpoint@
    }

    pub closed spec fn scheme(&self) -> Seq<char> {
        self.endpoint.scheme@
    }

    /// The freshness window the manifest service declared.
    pub closed spec fn max_age(&self) -> u64 {
        self.max_age
    }

    /// The rules derived from the manifest.
    pub closed spec fn rules(&self) -> Seq<ResolverView> {
        views(self.rules@)
    }

    /// The stage the resolution has reached.
    pub fn current_phase(&self) -> (r: Phase)
        ensures
            r == self.phase(),
    {
        self.phase
    }

    /// Advances the resolution by what came of its last action, and names
    /// the next action. A cache hit finishes with the cached rules; a miss
    /// asks the manifest service, fetches the manifest, translates it and
    /// stores the rules with the declared freshness window before finishing
    /// with them. Every failure but a failed cache read ends the resolution
    /// with that failure; an event that the stage does not wait for ends it
    /// with `SystemError`.
    pub fn step(&mut self, event: Event) -> (r: Action)
        ensures
            final(self).release_key() == old(self).release_key(),
            final(self).authority() == old(self).authority(),
            final(self).scheme() == old(self).scheme(),
            (r is Done || r is Fail) <==> final(self).phase() == Phase::Finished,
            match (old(self).phase(), event) {
                (Phase::AwaitCache, Event::CacheRead(Some(rules))) => r == Action::Done(rules),
                (Phase::AwaitCache, Event::CacheRead(None)) => {
                    if uri_accepted(old(self).scheme(), old(self).authority(), old(self).release_key()) {
                        &&& final(self).phase() == Phase::AwaitLocation
                        &&& r matches Action::FetchLocation { uri } && uri@ == spec_request_uri(
                            old(self).scheme(),
                            old(self).authority(),
                            old(self).release_key(),
                        )
                    } else {
                        r matches Action::Fail(Error::InvalidReleaseUri(k)) && k@ == old(
                            self,
                        ).release_key()
                    }
                },
                (Phase::AwaitLocation, Event::LocationFetched(Ok(resp))) => {
                    &&& final(self).phase() == Phase::AwaitManifest
                    &&& final(self).max_age() == resp.max_age
                    &&& r matches Action::FetchManifest { bucket, key } && bucket
                        == resp.location.bucket && key == resp.location.key
                },
                (Phase::AwaitLocation, Event::LocationFetched(Err(e))) => r == Action::Fail(e),
                (Phase::AwaitManifest, Event::ManifestFetched(Ok(m))) => match spec_translate(
                    m.key(),
                    m.reads_entries(),
                    m.variants_entries(),
                ) {
                    Ok(v) => {
                        &&& final(self).phase() == Phase::AwaitStore
                        &&& final(self).rules() == v
                        &&& r matches Action::Store { key, item } && key@ == spec_cache_key(
                            old(self).release_key(),
                        ) && views(item.item@) == v && item.max_age == old(self).max_age()
                    },
                    Err(f) => r matches Action::Fail(e) && e.reports(f),
                },
                (Phase::AwaitManifest, Event::ManifestFetched(Err(e))) => r == Action::Fail(e),
                (Phase::AwaitStore, Event::Stored(Ok(_))) => r matches Action::Done(rules) && views(
                    rules@,
                ) == old(self).rules(),
                (Phase::AwaitStore, Event::Stored(Err(e))) => r == Action::Fail(e),
                _ => r matches Action::Fail(Error::SystemError(_)),
            },
    {
        let phase = self.phase;
        match (phase, event) {
            (Phase::AwaitCache, Event::CacheRead(Some(rules))) => {
                self.phase = Phase::Finished;
                Action::Done(rules)
            },
            (Phase::AwaitCache, Event::CacheRead(None)) => {
                match self.endpoint.request_uri(self.release_key.as_str()) {
                    Ok(uri) => {
                        self.phase = Phase::AwaitLocation;
                        Action::FetchLocation { uri }
                    },
                    Err(e) => {
                        self.phase = Phase::Finished;
                        Action::Fail(e)
                    },
                }
            },
            (Phase::AwaitLocation, Event::LocationFetched(Ok(resp))) => {
                self.phase = Phase::AwaitManifest;
                self.max_age = resp.max_age;
                Action::FetchManifest { bucket: resp.location.bucket, key: resp.location.key }
            },
            (Phase::AwaitManifest, Event::ManifestFetched(Ok(m))) => {
                match m.resolvers() {
                    Ok(rules) => {
                        let item = CacheItem { item: duplicate_all(&rules), max_age: self.max_age };
                        self.rules = rules;
                        self.phase = Phase::AwaitStore;
                        Action::Store { key: cache_key(self.release_key.as_str()), item }
                    },
                    Err(e) => {
                        self.phase = Phase::Finished;
                        Action::Fail(e)
                    },
                }
            },
            (Phase::AwaitStore, Event::Stored(Ok(_))) => {
                self.phase = Phase::Finished;
                let rules = duplicate_all(&self.rules);
                Action::Done(rules)
            },
            (Phase::AwaitLocation, Event::LocationFetched(Err(e)))
            | (Phase::AwaitManifest, Event::ManifestFetched(Err(e)))
            | (Phase::AwaitStore, Event::Stored(Err(e))) => {
                self.phase = Phase::Finished;
                Action::Fail(e)
            },
            _ => {
                self.phase = Phase::Finished;
                Action::Fail(Error::SystemError(String::from_str("event does not fit the stage of the resolution")))
            },
        }
    }
}

} // verus!
