//! The address of a package's dist-tags, and the outcome of one lookup.

use crate::flags::Flags;
use crate::package_info::{PackageInfo, PackageInfoView};
use crate::registry::errors::RegistryError;
use crate::versions::dist_tags::{text_of, DistTags, DistTagsView};
use crate::versions::matching::{
    candidate_of, is_version_satisfying, match_dist_tag_with_target, should_update_spec,
};
use crate::versions::parse::VersionError;
use crate::versions::version_target::VersionTarget;
use vstd::prelude::*;
use vstd::string::StringExecFns;

verus! {

/// The registry that a run asks. The HTTP transport belongs to the caller.
#[derive(Debug, Clone, PartialEq, Eq)]
pub struct RegistryClient {
    /// The base URL, without a trailing slash.
    pub registry_url: String,
}

/// Why one dependency contributed no candidate.
#[derive(Debug, PartialEq, Eq)]
pub enum UpdateError {
    /// The lookup failed.
    Registry(RegistryError),
    /// A version or the constraint could not be read.
    Version(VersionError),
}

/// What came of the request for the dist-tags of one package.
#[derive(Debug, Clone, PartialEq, Eq)]
pub enum Response {
    /// The request failed before an answer came: connection, timeout, TLS.
    /// Holds the reason.
    Unreachable(String),
    /// The registry answered, but not with dist-tags. Holds the reason.
    Undecodable(String),
    /// The registry answered with dist-tags.
    Decoded(DistTags),
}

/// The text of the URL that `url::Url::parse` reads from a text, in the
/// normal form in which it serialises it, or nothing where it rejects the text.
pub uninterp spec fn url_parse(text: Seq<char>) -> Option<Seq<char>>;

/// Calls `url::Url::parse` and hands out the URL as text. Trusted: the
/// result is what [`url_parse`] names.
#[verifier::external_body]
fn parse_url(text: &str) -> (r: Result<String, url::ParseError>)
    ensures
        r is Ok <==> url_parse(text@) is Some,
        r matches Ok(u) ==> url_parse(text@) == Some(u@),
{
    url::Url::parse(text).map(String::from)
}

/// The address of a package's dist-tags under a registry base URL.
pub open spec fn endpoint(base: Seq<char>, name: Seq<char>) -> Seq<char> {
    base + "/-/package/"@ + name + "/dist-tags"@
}

/// What a lookup contributes: the candidate of the target if there is one
/// and the policy warrants the update, nothing if not, and the failure
/// where the lookup failed or a version could not be read.
pub open spec fn package_info_spec(
    name: Seq<char>,
    current_version: Seq<char>,
    fetched: Result<DistTagsView, RegistryError>,
    target: VersionTarget,
) -> Result<Option<PackageInfoView>, UpdateError> {
    match fetched {
        Err(e) => Err(UpdateError::Registry(e)),
        Ok(tags) => match candidate_of(tags, target) {
            None => Ok(None),
            Some(candidate) => match should_update_spec(
                current_version,
                current_version,
                candidate,
                target,
            ) {
                Err(e) => Err(UpdateError::Version(e)),
                Ok(false) => Ok(None),
                Ok(true) => Ok(
                    Some(
                        PackageInfoView {
                            pkg_name: name,
                            current_version,
                            latest_version: candidate,
                        },
                    ),
                ),
            },
        },
    }
}

/// The value of a lookup's outcome.
pub open spec fn fetched_view(fetched: Result<DistTags, RegistryError>) -> Result<
    DistTagsView,
    RegistryError,
> {
    match fetched {
        Ok(tags) => Ok(tags@),
        Err(e) => Err(e),
    }
}

/// The value of what a lookup contributes.
pub open spec fn info_view(r: Result<Option<PackageInfo>, UpdateError>) -> Result<
    Option<PackageInfoView>,
    UpdateError,
> {
    match r {
        Ok(Some(info)) => Ok(Some(info@)),
        Ok(None) => Ok(None),
        Err(e) => Err(e),
    }
}

impl Default for RegistryClient {
    /// The public npm registry.
    fn default() -> (r: RegistryClient)
        ensures
            r.registry_url@ == "https://registry.npmjs.org"@,
    {
        RegistryClient { registry_url: String::from_str("https://registry.npmjs.org") }
    }
}

impl RegistryClient {
    /// A client for the registry at `registry_url`.
    pub fn new(registry_url: String) -> (r: RegistryClient)
        ensures
            r.registry_url == registry_url,
    {
        RegistryClient { registry_url }
    }

    /// The URL to ask for the dist-tags of `name`, or `ParseError` where
    /// the base URL and the name do not make a well-formed URL.
    pub fn package_url(&self, name: &str) -> (r: Result<String, RegistryError>)
        ensures
            r is Ok <==> url_parse(endpoint(self.registry_url@, name@)) is Some,
            r matches Ok(u) ==> url_parse(endpoint(self.registry_url@, name@)) == Some(u@),
            r matches Err(e) ==> e is ParseError,
    {
        let mut full_url = self.registry_url.clone();
        full_url.append("/-/package/");
        full_url.append(name);
        full_url.append("/dist-tags");
        match parse_url(full_url.as_str()) {
            Ok(u) => Ok(u),
            Err(e) => Err(RegistryError::ParseError(e)),
        }
    }

    /// The outcome of the lookup of `name`, given what came of the request:
    /// the dist-tags if they came; `RequestError` if no answer came;
    /// `PackageNotFound`, with the name, if the answer was no dist-tags.
    pub fn fetch_registry(name: &str, response: Response) -> (r: Result<DistTags, RegistryError>)
        ensures
            match response {
                Response::Decoded(tags) => r == Ok::<DistTags, RegistryError>(tags),
                Response::Unreachable(reason) => r matches Err(RegistryError::RequestError(why))
                    && why == reason,
                Response::Undecodable(reason) => r matches Err(
                    RegistryError::PackageNotFound(package, why),
                ) && package@ == name@ && why == reason,
            },
    {
        match response {
            Response::Decoded(tags) => Ok(tags),
            Response::Unreachable(reason) => Err(RegistryError::RequestError(reason)),
            Response::Undecodable(reason) => Err(
                RegistryError::PackageNotFound(name.to_owned(), reason),
            ),
        }
    }

    /// The candidate version of a lookup under the run's target.
    pub fn fetch_package_version(fetched: Result<DistTags, RegistryError>, flags: &Flags) -> (r:
        Result<Option<String>, RegistryError>)
        ensures
            match fetched {
                Ok(tags) => r matches Ok(version) && text_of(version) == candidate_of(
                    tags@,
                    flags.target,
                ),
                Err(e) => r == Err::<Option<String>, RegistryError>(e),
            },
    {
        match fetched {
            Ok(dist_tags) => Ok(match_dist_tag_with_target(dist_tags, &flags.target)),
            Err(e) => Err(e),
        }
    }

    /// What the lookup of one dependency contributes to the run.
    pub fn get_package_info(
        name: &str,
        current_version: &str,
        fetched: Result<DistTags, RegistryError>,
        flags: &Flags,
    ) -> (r: Result<Option<PackageInfo>, UpdateError>)
        ensures
            info_view(r) == package_info_spec(
                name@,
                current_version@,
                fetched_view(fetched),
                flags.target,
            ),
    {
        let latest_version = match RegistryClient::fetch_package_version(fetched, flags) {
            Ok(version) => version,
            Err(e) => {
                return Err(UpdateError::Registry(e));
            },
        };
        match latest_version {
            None => Ok(None),
            Some(version) => match is_version_satisfying(
                current_version,
                version.as_str(),
                flags,
            ) {
                Err(e) => Err(UpdateError::Version(e)),
                Ok(false) => Ok(None),
                Ok(true) => Ok(
                    Some(
                        PackageInfo {
                            pkg_name: name.to_owned(),
                            current_version: current_version.to_owned(),
                            latest_version: version,
                        },
                    ),
                ),
            },
        }
    }
}

} // verus!
