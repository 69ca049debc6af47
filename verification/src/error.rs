//! What a refused request is answered.

use vstd::prelude::*;

use crate::repository::RepoInfo;

verus! {

/// Why a request is refused.
#[derive(Debug, Clone, Copy, PartialEq, Eq, Structural)]
pub enum GalleryError {
    /// The gallery routes answer for Remote repositories only.
    UnsupportedRepositoryType,
    /// The gallery routes answer for public repositories only.
    PrivateRepository,
    RepositoryNotFound,
    MissingUpstream,
    /// The configured upstream is no gallery root.
    InvalidUpstream,
    /// The upstream has no asset endpoint beside it.
    NoAssetEndpoint,
    InvalidPath,
    InvalidTargetPlatform,
    InvalidQueryJson,
    /// The upstream's answer does not have the gallery's shape.
    InvalidResponse,
    ResponseTooLarge,
    /// The upstream's answer is not JSON.
    MalformedJson,
    ProxyUnavailable,
    ExtensionNotFound,
    VersionNotFound,
    /// The age gate is on and cannot be evaluated for a metadata listing.
    MetadataGateUnavailable,
    /// The age gate is on and cannot be evaluated for an asset.
    AssetGateUnavailable,
    /// The age gate is on and cannot be evaluated for the download route without platforms.
    LegacyGateUnavailable,
    EmptyPackage,
    MissingPublisher,
    MissingExtensionName,
    MissingExtensionVersion,
    VersionExists,
}

/// The status code that an error is answered with.
pub open spec fn error_status(error: GalleryError) -> u16 {
    match error {
        GalleryError::UnsupportedRepositoryType => 501,
        GalleryError::PrivateRepository => 403,
        GalleryError::RepositoryNotFound | GalleryError::ExtensionNotFound
        | GalleryError::VersionNotFound => 404,
        GalleryError::MissingUpstream | GalleryError::InvalidUpstream
        | GalleryError::NoAssetEndpoint | GalleryError::InvalidResponse
        | GalleryError::ResponseTooLarge | GalleryError::MalformedJson => 502,
        GalleryError::InvalidPath | GalleryError::InvalidTargetPlatform
        | GalleryError::InvalidQueryJson | GalleryError::EmptyPackage
        | GalleryError::MissingPublisher | GalleryError::MissingExtensionName
        | GalleryError::MissingExtensionVersion => 400,
        GalleryError::ProxyUnavailable | GalleryError::MetadataGateUnavailable
        | GalleryError::AssetGateUnavailable | GalleryError::LegacyGateUnavailable => 503,
        GalleryError::VersionExists => 409,
    }
}

/// The capability that an unavailable age gate withholds, where that is why a request is refused.
pub open spec fn withheld_surface(error: GalleryError) -> Option<Seq<char>> {
    match error {
        GalleryError::MetadataGateUnavailable => Some("VS Code gallery metadata"@),
        GalleryError::AssetGateUnavailable => Some("VS Code gallery asset"@),
        GalleryError::LegacyGateUnavailable => Some(
            "VS Code legacy extension download (use the /gallery/... routes)"@,
        ),
        _ => None,
    }
}

/// The text that an error on `repo` is answered with. An unavailable age gate has none: it is
/// answered with the surface that it withholds.
pub open spec fn error_text(error: GalleryError, repo: RepoInfo) -> Option<Seq<char>> {
    match error {
        GalleryError::UnsupportedRepositoryType => Some(
            "VS Code gallery routes require a Remote repository ("@ + repo.key@ + " is "@
                + repo.repo_type@ + ")"@,
        ),
        GalleryError::PrivateRepository => Some(
            "VS Code gallery routes are public-only: repository "@ + repo.key@
                + " is private. Gallery clients cannot present a credential, so private galleries are not supported. Make the repository public or use the /vscode/"@
                + repo.key@ + "/extensions/... routes."@,
        ),
        GalleryError::RepositoryNotFound => Some("Repository not found"@),
        GalleryError::MissingUpstream => Some(
            "Remote VS Code repository is missing its Open VSX gallery upstream URL"@,
        ),
        GalleryError::InvalidUpstream => Some(
            "Remote VS Code upstream URL must end in /vscode/gallery"@,
        ),
        GalleryError::NoAssetEndpoint => Some("Open VSX upstream URL must end in /vscode/gallery"@),
        GalleryError::InvalidPath => Some("Invalid VS Code gallery path"@),
        GalleryError::InvalidTargetPlatform => Some("Invalid VS Code target platform"@),
        GalleryError::InvalidQueryJson => Some("Invalid VS Code gallery query JSON"@),
        GalleryError::InvalidResponse => Some(
            "Open VSX gallery returned an invalid extensionquery response"@,
        ),
        GalleryError::ResponseTooLarge => Some(
            "Open VSX gallery response exceeded the gateway's buffered-metadata ceiling"@,
        ),
        GalleryError::MalformedJson => Some("Open VSX gallery returned malformed JSON"@),
        GalleryError::ProxyUnavailable => Some("Proxy service is unavailable"@),
        GalleryError::ExtensionNotFound => Some("Extension not found"@),
        GalleryError::VersionNotFound => Some("Extension version not found"@),
        GalleryError::EmptyPackage => Some("Empty VSIX file"@),
        GalleryError::MissingPublisher => Some("Missing x-publisher header"@),
        GalleryError::MissingExtensionName => Some("Missing x-extension-name header"@),
        GalleryError::MissingExtensionVersion => Some("Missing x-extension-version header"@),
        GalleryError::VersionExists => Some("Extension version already exists"@),
        GalleryError::MetadataGateUnavailable | GalleryError::AssetGateUnavailable
        | GalleryError::LegacyGateUnavailable => None,
    }
}

/// The view of an optional text.
pub open spec fn text_opt(text: Option<String>) -> Option<Seq<char>> {
    match text {
        Some(text) => Some(text@),
        None => None,
    }
}

/// The text that says which repository is not Remote.
pub fn unsupported_gallery_repo_type(repo: &RepoInfo) -> (text: String)
    ensures
        Some(text@) == error_text(GalleryError::UnsupportedRepositoryType, *repo),
{
    let mut text = "VS Code gallery routes require a Remote repository (".to_string();
    text.append(repo.key.as_str());
    text.append(" is ");
    text.append(repo.repo_type.as_str());
    text.append(")");
    text
}

/// The text that says which repository is private, and where its extensions can be had.
pub fn private_gallery_forbidden(repo: &RepoInfo) -> (text: String)
    ensures
        Some(text@) == error_text(GalleryError::PrivateRepository, *repo),
{
    let mut text = "VS Code gallery routes are public-only: repository ".to_string();
    text.append(repo.key.as_str());
    text.append(
        " is private. Gallery clients cannot present a credential, so private galleries are not supported. Make the repository public or use the /vscode/",
    );
    text.append(repo.key.as_str());
    text.append("/extensions/... routes.");
    text
}

impl GalleryError {
    /// The status code that the error is answered with.
    pub fn status(&self) -> (status: u16)
        ensures
            status == error_status(*self),
    {
        match self {
            GalleryError::UnsupportedRepositoryType => 501,
            GalleryError::PrivateRepository => 403,
            GalleryError::RepositoryNotFound | GalleryError::ExtensionNotFound
            | GalleryError::VersionNotFound => 404,
            GalleryError::MissingUpstream | GalleryError::InvalidUpstream
            | GalleryError::NoAssetEndpoint | GalleryError::InvalidResponse
            | GalleryError::ResponseTooLarge | GalleryError::MalformedJson => 502,
            GalleryError::InvalidPath | GalleryError::InvalidTargetPlatform
            | GalleryError::InvalidQueryJson | GalleryError::EmptyPackage
            | GalleryError::MissingPublisher | GalleryError::MissingExtensionName
            | GalleryError::MissingExtensionVersion => 400,
            GalleryError::ProxyUnavailable | GalleryError::MetadataGateUnavailable
            | GalleryError::AssetGateUnavailable | GalleryError::LegacyGateUnavailable => 503,
            GalleryError::VersionExists => 409,
        }
    }

    /// The capability that an unavailable age gate withholds, where that is why the request is
    /// refused.
    pub fn surface(&self) -> (surface: Option<String>)
        ensures
            text_opt(surface) == withheld_surface(*self),
    {
        match self {
            GalleryError::MetadataGateUnavailable => Some("VS Code gallery metadata".to_string()),
            GalleryError::AssetGateUnavailable => Some("VS Code gallery asset".to_string()),
            GalleryError::LegacyGateUnavailable => Some(
                "VS Code legacy extension download (use the /gallery/... routes)".to_string(),
            ),
            _ => None,
        }
    }

    /// The text that the error on `repo` is answered with.
    pub fn message(&self, repo: &RepoInfo) -> (text: Option<String>)
        ensures
            text_opt(text) == error_text(*self, *repo),
    {
        match self {
            GalleryError::UnsupportedRepositoryType => Some(unsupported_gallery_repo_type(repo)),
            GalleryError::PrivateRepository => Some(private_gallery_forbidden(repo)),
            GalleryError::RepositoryNotFound => Some("Repository not found".to_string()),
            GalleryError::MissingUpstream => Some(
                "Remote VS Code repository is missing its Open VSX gallery upstream URL".to_string(),
            ),
            GalleryError::InvalidUpstream => Some(
                "Remote VS Code upstream URL must end in /vscode/gallery".to_string(),
            ),
            GalleryError::NoAssetEndpoint => Some(
                "Open VSX upstream URL must end in /vscode/gallery".to_string(),
            ),
            GalleryError::InvalidPath => Some("Invalid VS Code gallery path".to_string()),
            GalleryError::InvalidTargetPlatform => Some(
                "Invalid VS Code target platform".to_string(),
            ),
            GalleryError::InvalidQueryJson => Some("Invalid VS Code gallery query JSON".to_string()),
            GalleryError::InvalidResponse => Some(
                "Open VSX gallery returned an invalid extensionquery response".to_string(),
            ),
            GalleryError::ResponseTooLarge => Some(
                "Open VSX gallery response exceeded the gateway's buffered-metadata ceiling".to_string(),
            ),
            GalleryError::MalformedJson => Some(
                "Open VSX gallery returned malformed JSON".to_string(),
            ),
            GalleryError::ProxyUnavailable => Some("Proxy service is unavailable".to_string()),
            GalleryError::ExtensionNotFound => Some("Extension not found".to_string()),
            GalleryError::VersionNotFound => Some("Extension version not found".to_string()),
            GalleryError::EmptyPackage => Some("Empty VSIX file".to_string()),
            GalleryError::MissingPublisher => Some("Missing x-publisher header".to_string()),
            GalleryError::MissingExtensionName => Some(
                "Missing x-extension-name header".to_string(),
            ),
            GalleryError::MissingExtensionVersion => Some(
                "Missing x-extension-version header".to_string(),
            ),
            GalleryError::VersionExists => Some("Extension version already exists".to_string()),
            GalleryError::MetadataGateUnavailable | GalleryError::AssetGateUnavailable
            | GalleryError::LegacyGateUnavailable => None,
        }
    }
}

} // verus!
