//! Resolution of data-sharing releases into htsget routing rules.
//!
//! A release key is resolved by asking the manifest service where the
//! release's manifest lives, fetching that manifest, and translating each
//! of its entries into routing rules. Results are cached with the freshness
//! window that the manifest service declares.
use vstd::prelude::*;

pub mod cache;
pub mod elsa_endpoint;
pub mod laws;
pub mod manifest;
pub mod examples;
pub mod resolver;
pub mod routing;
pub mod text;

verus! {

/// Main error type for this crate.
#[derive(Debug)]
pub enum Error {
    InvalidClient(String),
    InvalidReleaseUri(String),
    GetManifest(String),
    DeserializeError(String),
    SerializeError(String),
    GetObjectError(String),
    PutObjectError(String),
    InvalidManifest(String),
    UnsupportedManifestFeature(String),
    SystemError(String),
}

impl Error {
    /// The text that the error carries.
    pub open spec fn detail(&self) -> Seq<char> {
        match self {
            Error::InvalidClient(s) => s@,
            Error::InvalidReleaseUri(s) => s@,
            Error::GetManifest(s) => s@,
            Error::DeserializeError(s) => s@,
            Error::SerializeError(s) => s@,
            Error::GetObjectError(s) => s@,
            Error::PutObjectError(s) => s@,
            Error::InvalidManifest(s) => s@,
            Error::UnsupportedManifestFeature(s) => s@,
            Error::SystemError(s) => s@,
        }
    }

    /// What the kind of error is called in its message.
    pub open spec fn heading(&self) -> Seq<char> {
        match self {
            Error::InvalidClient(_) => "invalid client: "@,
            Error::InvalidReleaseUri(_) => "invalid uri constructed from release key: "@,
            Error::GetManifest(_) => "failed to get manifest from Elsa: "@,
            Error::DeserializeError(_) => "failed to deserialize: "@,
            Error::SerializeError(_) => "failed to serialize: "@,
            Error::GetObjectError(_) => "failed to get object from storage: "@,
            Error::PutObjectError(_) => "failed to put object into storage: "@,
            Error::InvalidManifest(_) => "invalid uri received from manifest: "@,
            Error::UnsupportedManifestFeature(_) => "unsupported component of manifest: "@,
            Error::SystemError(_) => "system error: "@,
        }
    }

    /// A one-line description of the error: its heading, then its text.
    pub fn message(&self) -> (r: String)
        ensures
            r@ == self.heading() + self.detail(),
    {
        let (heading, detail) = match self {
            Error::InvalidClient(s) => ("invalid client: ", s),
            Error::InvalidReleaseUri(s) => ("invalid uri constructed from release key: ", s),
            Error::GetManifest(s) => ("failed to get manifest from Elsa: ", s),
            Error::DeserializeError(s) => ("failed to deserialize: ", s),
            Error::SerializeError(s) => ("failed to serialize: ", s),
            Error::GetObjectError(s) => ("failed to get object from storage: ", s),
            Error::PutObjectError(s) => ("failed to put object into storage: ", s),
            Error::InvalidManifest(s) => ("invalid uri received from manifest: ", s),
            Error::UnsupportedManifestFeature(s) => ("unsupported component of manifest: ", s),
            Error::SystemError(s) => ("system error: ", s),
        };
        let mut r = String::from_str(heading);
        r.append(detail.as_str());
        r
    }
}

} // verus!
