use update_check::flags::Flags;
use update_check::package_info::{normalize_version, Highlight, PackageInfo};
use update_check::registry::client::{RegistryClient, Response, UpdateError};
use update_check::registry::errors::RegistryError;
use update_check::registry::options::RegistryClientOptions;
use update_check::versions::dist_tags::DistTags;
use update_check::versions::parse::VersionError;
use update_check::versions::version_target::VersionTarget;

fn tags(latest: &str) -> DistTags {
    DistTags {
        latest: latest.to_string(),
        next: None,
        canary: None,
        rc: None,
        beta: None,
        alpha: None,
    }
}

fn flags(target: VersionTarget) -> Flags {
    Flags { development: false, production: false, global: false, target }
}

fn info(name: &str, current: &str, latest: &str) -> PackageInfo {
    PackageInfo {
        pkg_name: name.to_string(),
        current_version: current.to_string(),
        latest_version: latest.to_string(),
    }
}

#[test]
fn default_options() {
    let options = RegistryClientOptions::default();
    assert_eq!(options.max_sockets, 12);
    assert_eq!(options.timeout, 300_000);
    assert!(options.strict_ssl);
}

#[test]
fn default_flags() {
    let flags = Flags::default();
    assert!(!flags.development);
    assert!(!flags.production);
    assert!(!flags.global);
    assert_eq!(flags.target, VersionTarget::Latest);
}

#[test]
fn default_registry() {
    assert_eq!(RegistryClient::default().registry_url, "https://registry.npmjs.org");
    assert_eq!(
        RegistryClient::new("http://localhost:4873".to_string()).registry_url,
        "http://localhost:4873"
    );
}

#[test]
fn package_url_is_the_dist_tags_endpoint() {
    let client = RegistryClient::default();
    assert_eq!(
        client.package_url("left-pad"),
        Ok("https://registry.npmjs.org/-/package/left-pad/dist-tags".to_string())
    );
    assert_eq!(
        client.package_url("@types/node"),
        Ok("https://registry.npmjs.org/-/package/@types/node/dist-tags".to_string())
    );
}

#[test]
fn package_url_is_normalised() {
    let client = RegistryClient::new("HTTPS://Registry.NPMJS.org:443".to_string());
    assert_eq!(
        client.package_url("a b"),
        Ok("https://registry.npmjs.org/-/package/a%20b/dist-tags".to_string())
    );
}

#[test]
fn package_url_without_a_base_is_a_parse_error() {
    let client = RegistryClient::new("registry".to_string());
    assert_eq!(
        client.package_url("left-pad"),
        Err(RegistryError::ParseError(url::ParseError::RelativeUrlWithoutBase))
    );
    let client = RegistryClient::new("http://[::1".to_string());
    assert!(matches!(client.package_url("left-pad"), Err(RegistryError::ParseError(_))));
}

#[test]
fn fetched_version_follows_the_target() {
    let mut dist_tags = tags("1.0.0");
    dist_tags.beta = Some("2.0.0-beta.1".to_string());
    assert_eq!(
        RegistryClient::fetch_package_version(Ok(dist_tags.clone()), &flags(VersionTarget::Latest)),
        Ok(Some("1.0.0".to_string()))
    );
    assert_eq!(
        RegistryClient::fetch_package_version(Ok(dist_tags.clone()), &flags(VersionTarget::Beta)),
        Ok(Some("2.0.0-beta.1".to_string()))
    );
    assert_eq!(
        RegistryClient::fetch_package_version(Ok(dist_tags), &flags(VersionTarget::Alpha)),
        Ok(None)
    );
    assert_eq!(
        RegistryClient::fetch_package_version(
            Err(RegistryError::RequestError("timed out".to_string())),
            &flags(VersionTarget::Latest)
        ),
        Err(RegistryError::RequestError("timed out".to_string()))
    );
}

#[test]
fn package_info_for_an_available_update() {
    let found = RegistryClient::get_package_info(
        "react",
        "^17.0.2",
        Ok(tags("18.3.1")),
        &flags(VersionTarget::Latest),
    );
    assert_eq!(found, Ok(Some(info("react", "^17.0.2", "18.3.1"))));
}

#[test]
fn package_info_is_nothing_without_an_update() {
    assert_eq!(
        RegistryClient::get_package_info("react", "18.3.1", Ok(tags("18.3.1")), &Flags::default()),
        Ok(None)
    );
    assert_eq!(
        RegistryClient::get_package_info(
            "react",
            "^17.0.2",
            Ok(tags("18.3.1")),
            &flags(VersionTarget::Semver)
        ),
        Ok(None)
    );
    assert_eq!(
        RegistryClient::get_package_info(
            "react",
            "^17.0.2",
            Ok(tags("18.3.1")),
            &flags(VersionTarget::Canary)
        ),
        Ok(None)
    );
}

#[test]
fn package_info_carries_each_failure() {
    assert_eq!(
        RegistryClient::get_package_info(
            "left-pad",
            "^1.0.0",
            Err(RegistryError::RequestError("connection reset".to_string())),
            &Flags::default()
        ),
        Err(UpdateError::Registry(RegistryError::RequestError("connection reset".to_string())))
    );
    assert_eq!(
        RegistryClient::get_package_info(
            "nope",
            "^1.0.0",
            Err(RegistryError::PackageNotFound("nope".to_string(), "missing field".to_string())),
            &Flags::default()
        ),
        Err(UpdateError::Registry(RegistryError::PackageNotFound(
            "nope".to_string(),
            "missing field".to_string()
        )))
    );
    assert_eq!(
        RegistryClient::get_package_info(
            "odd",
            "^1.0.0",
            Err(RegistryError::ParseError(url::ParseError::EmptyHost)),
            &Flags::default()
        ),
        Err(UpdateError::Registry(RegistryError::ParseError(url::ParseError::EmptyHost)))
    );
    assert_eq!(
        RegistryClient::get_package_info("local", "file:../local", Ok(tags("1.0.0")), &Flags::default()),
        Err(UpdateError::Version(VersionError::InvalidVersion))
    );
    assert_eq!(
        RegistryClient::get_package_info(
            "tagged",
            "1.0.0",
            Ok(tags("stable")),
            &Flags::default()
        ),
        Err(UpdateError::Version(VersionError::InvalidVersion))
    );
}

#[test]
fn range_marks_are_stripped_for_display() {
    assert_eq!(normalize_version("^1.2.3"), "1.2.3");
    assert_eq!(normalize_version("~1.2.3"), "1.2.3");
    assert_eq!(normalize_version("~^~1.2.3"), "1.2.3");
    assert_eq!(normalize_version("1.2.3"), "1.2.3");
    assert_eq!(normalize_version(">=1.2.3"), ">=1.2.3");
    assert_eq!(normalize_version("^"), "");
    assert_eq!(normalize_version(""), "");
}

#[test]
fn highlight_follows_the_bump() {
    assert_eq!(info("a", "^1.2.0", "2.0.0").highlight(), Some(Highlight::Major));
    assert_eq!(info("a", "~1.2.0", "1.3.0").highlight(), Some(Highlight::Minor));
    assert_eq!(info("a", "1.2.0", "1.2.1").highlight(), Some(Highlight::Other));
    assert_eq!(info("a", "1.2.0", "1.2.0").highlight(), Some(Highlight::Other));
    assert_eq!(info("a", "2.5.0", "3.0.0-rc.1").highlight(), Some(Highlight::Major));
    assert_eq!(info("a", "2.5.0", "1.9.0").highlight(), Some(Highlight::Minor));
}

#[test]
fn highlight_needs_strict_versions() {
    assert_eq!(info("a", "^1.2", "2.0.0").highlight(), None);
    assert_eq!(info("a", "1.2.0", "latest").highlight(), None);
    assert_eq!(info("a", ">=1.2.0", "2.0.0").highlight(), None);
    assert_eq!(info("a", "v1.2.0", "2.0.0").highlight(), None);
}

#[test]
fn update_line_and_install_argument() {
    let update = info("left-pad", "^1.2.0", "1.3.0");
    assert_eq!(update.to_text(), "left-pad: ^1.2.0 → 1.3.0");
    assert_eq!(update.install_arg(), "left-pad@1.3.0");
    let scoped = info("@types/node", "20.0.0", "22.1.0");
    assert_eq!(scoped.to_text(), "@types/node: 20.0.0 → 22.1.0");
    assert_eq!(scoped.install_arg(), "@types/node@22.1.0");
}

#[test]
fn each_response_has_its_outcome() {
    assert_eq!(
        RegistryClient::fetch_registry("left-pad", Response::Decoded(tags("1.3.0"))),
        Ok(tags("1.3.0"))
    );
    assert_eq!(
        RegistryClient::fetch_registry("left-pad", Response::Unreachable("timed out".to_string())),
        Err(RegistryError::RequestError("timed out".to_string()))
    );
    assert_eq!(
        RegistryClient::fetch_registry(
            "left-pad",
            Response::Undecodable("missing field `latest`".to_string())
        ),
        Err(RegistryError::PackageNotFound(
            "left-pad".to_string(),
            "missing field `latest`".to_string()
        ))
    );
}
