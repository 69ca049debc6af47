//! URLs, cache paths and storage keys: where a version is served, fetched from and kept.

use vstd::prelude::*;

use crate::coordinate::{
    normal_target_platform, validate_gallery_request_segment, validate_gallery_response_segment,
    validate_target_platform,
};
use crate::error::GalleryError;
use crate::percent::encode;
use crate::repository::{RepoInfo, RequestBaseUrl};
use crate::text::{chars_of, ends_with, text_of, trim_trailing};

verus! {

/// The SHA-256 digest of `bytes`, as text.
pub uninterp spec fn sha256_text(bytes: Seq<u8>) -> Seq<char>;

/// The digits of a digest's text.
pub open spec fn small_hex_digit(c: char) -> bool {
    '0' <= c <= '9' || 'a' <= c <= 'f'
}

/// `sha2::Sha256::digest`, formatted in small hexadecimal digits: sixty-four of them. Which they
/// are is named and not stated.
#[verifier::external_body]
fn sha256_hex(bytes: &[u8]) -> (digest: String)
    ensures
        digest@ == sha256_text(bytes@),
        digest@.len() == 64,
        forall|i: int| 0 <= i < digest@.len() ==> small_hex_digit(#[trigger] digest@[i]),
{
    format!("{:x}", <sha2::Sha256 as sha2::Digest>::digest(bytes))
}

/// The checksum that a stored package is listed with.
pub fn checksum_sha256(body: &[u8]) -> (checksum: String)
    ensures
        checksum@ == sha256_text(body@),
        checksum@.len() == 64,
        forall|i: int| 0 <= i < checksum@.len() ==> small_hex_digit(#[trigger] checksum@[i]),
{
    sha256_hex(body)
}

/// The path of a version's build, each part of the coordinate one segment.
pub open spec fn coordinate_path(
    publisher: Seq<char>,
    name: Seq<char>,
    version: Seq<char>,
    platform: Seq<char>,
) -> Seq<char> {
    crate::percent::encoded(publisher) + "/"@ + crate::percent::encoded(name) + "/"@
        + crate::percent::encoded(version) + "/"@ + crate::percent::encoded(platform)
}

/// Appends the path of a version's build.
fn append_coordinate(
    text: &mut String,
    publisher: &str,
    name: &str,
    version: &str,
    platform: &str,
)
    ensures
        final(text)@ == old(text)@ + coordinate_path(publisher@, name@, version@, platform@),
{
    let ghost start = text@;
    text.append(encode(publisher).as_str());
    text.append("/");
    text.append(encode(name).as_str());
    text.append("/");
    text.append(encode(version).as_str());
    text.append("/");
    text.append(encode(platform).as_str());
    assert(text@ =~= start + coordinate_path(publisher@, name@, version@, platform@));
}

/// The root of a repository's gallery.
pub open spec fn gallery_root(base_url: Seq<char>, repo_key: Seq<char>) -> Seq<char> {
    crate::text::without_trailing(base_url, '/') + "/vscode/"@ + crate::percent::encoded(repo_key)
        + "/gallery"@
}

/// The root of a repository's gallery.
pub fn gallery_base_url(base_url: &RequestBaseUrl, repo_key: &str) -> (url: String)
    ensures
        url@ == gallery_root(base_url.0@, repo_key@),
{
    let mut url = trim_trailing(base_url.as_str(), '/');
    url.append("/vscode/");
    url.append(encode(repo_key).as_str());
    url.append("/gallery");
    url
}

/// Where the assets of a version's build are served.
pub open spec fn asset_root(
    base_url: Seq<char>,
    repo_key: Seq<char>,
    publisher: Seq<char>,
    name: Seq<char>,
    version: Seq<char>,
    platform: Seq<char>,
) -> Seq<char> {
    crate::text::without_trailing(base_url, '/') + "/vscode/"@ + crate::percent::encoded(repo_key)
        + "/asset/"@ + coordinate_path(publisher, name, version, platform)
}

/// Where the assets of a version's build are served.
pub fn gallery_asset_base_url(
    base_url: &RequestBaseUrl,
    repo_key: &str,
    publisher: &str,
    name: &str,
    version: &str,
    target_platform: &str,
) -> (url: String)
    ensures
        url@ == asset_root(
            base_url.0@,
            repo_key@,
            publisher@,
            name@,
            version@,
            target_platform@,
        ),
{
    let mut url = trim_trailing(base_url.as_str(), '/');
    url.append("/vscode/");
    url.append(encode(repo_key).as_str());
    url.append("/asset/");
    append_coordinate(&mut url, publisher, name, version, target_platform);
    url
}

/// The view of a text that may have been refused.
pub open spec fn text_or_error(text: Result<String, GalleryError>) -> Result<
    Seq<char>,
    GalleryError,
> {
    match text {
        Ok(text) => Ok(text@),
        Err(error) => Err(error),
    }
}

/// Where the assets of a build that an upstream reports are served, where version name and
/// platform may stand in a path.
pub open spec fn version_asset_root(
    base_url: Seq<char>,
    repo_key: Seq<char>,
    publisher: Seq<char>,
    name: Seq<char>,
    version: Seq<char>,
    platform: Seq<char>,
) -> Result<Seq<char>, GalleryError> {
    if crate::coordinate::safe_segment(version) && crate::coordinate::safe_platform(platform) {
        Ok(asset_root(base_url, repo_key, publisher, name, version, platform))
    } else {
        Err(GalleryError::InvalidResponse)
    }
}

/// Where the assets of a build that an upstream reports are served.
pub fn gallery_version_asset_base(
    base_url: &RequestBaseUrl,
    repo_key: &str,
    publisher: &str,
    name: &str,
    version: &str,
    target_platform: &str,
) -> (url: Result<String, GalleryError>)
    ensures
        text_or_error(url) == version_asset_root(
            base_url.0@,
            repo_key@,
            publisher@,
            name@,
            version@,
            target_platform@,
        ),
{
    validate_gallery_response_segment(version)?;
    validate_target_platform(target_platform, true)?;
    Ok(
        gallery_asset_base_url(base_url, repo_key, publisher, name, version, target_platform),
    )
}

/// The gallery root that the repository proxies, or why there is none to serve.
pub open spec fn upstream_of(repo: RepoInfo, is_public: Option<bool>) -> Result<
    Seq<char>,
    GalleryError,
> {
    if !repo.remote() {
        Err(GalleryError::UnsupportedRepositoryType)
    } else {
        match is_public {
            None => Err(GalleryError::RepositoryNotFound),
            Some(false) => Err(GalleryError::PrivateRepository),
            Some(true) => match repo.upstream() {
                None => Err(GalleryError::MissingUpstream),
                Some(url) => if crate::text::has_suffix(
                    crate::text::without_trailing(url, '/'),
                    "/vscode/gallery"@,
                ) {
                    Ok(url)
                } else {
                    Err(GalleryError::InvalidUpstream)
                },
            },
        }
    }
}

/// The gallery root that the repository proxies. `is_public` is its visibility as it stands now,
/// or nothing where the repository is gone.
pub fn gallery_upstream<'a>(repo: &'a RepoInfo, is_public: Option<bool>) -> (url: Result<
    &'a str,
    GalleryError,
>)
    ensures
        match url {
            Ok(url) => upstream_of(*repo, is_public) == Ok::<Seq<char>, GalleryError>(url@),
            Err(error) => upstream_of(*repo, is_public) == Err::<Seq<char>, GalleryError>(error),
        },
{
    if !repo.is_remote() {
        return Err(GalleryError::UnsupportedRepositoryType);
    }
    match is_public {
        None => return Err(GalleryError::RepositoryNotFound),
        Some(public) => if !public {
            return Err(GalleryError::PrivateRepository);
        },
    }
    match &repo.upstream_url {
        None => Err(GalleryError::MissingUpstream),
        Some(url) => {
            if ends_with(trim_trailing(url.as_str(), '/').as_str(), "/vscode/gallery") {
                Ok(url.as_str())
            } else {
                Err(GalleryError::InvalidUpstream)
            }
        },
    }
}

/// Where the upstream at `gallery_url` serves an asset, if it has an asset endpoint.
pub open spec fn upstream_asset(
    gallery_url: Seq<char>,
    publisher: Seq<char>,
    name: Seq<char>,
    version: Seq<char>,
    asset_type: Seq<char>,
    platform: Seq<char>,
) -> Result<Seq<char>, GalleryError> {
    let root = crate::text::without_trailing(gallery_url, '/');
    if crate::text::has_suffix(root, "/gallery"@) {
        Ok(
            root.take(root.len() - "/gallery"@.len()) + "/asset/"@ + crate::percent::encoded(
                publisher,
            ) + "/"@ + crate::percent::encoded(name) + "/"@ + crate::percent::encoded(version)
                + "/"@ + crate::percent::encoded(asset_type) + "?targetPlatform="@
                + crate::percent::encoded(platform),
        )
    } else {
        Err(GalleryError::NoAssetEndpoint)
    }
}

/// Where the upstream at `gallery_url` serves an asset: its asset endpoint stands beside the
/// gallery root.
pub fn openvsx_asset_url(
    gallery_url: &str,
    publisher: &str,
    name: &str,
    version: &str,
    asset_type: &str,
    target_platform: &str,
) -> (url: Result<String, GalleryError>)
    ensures
        text_or_error(url) == upstream_asset(
            gallery_url@,
            publisher@,
            name@,
            version@,
            asset_type@,
            target_platform@,
        ),
{
    let root = trim_trailing(gallery_url, '/');
    if !ends_with(root.as_str(), "/gallery") {
        return Err(GalleryError::NoAssetEndpoint);
    }
    let chars = chars_of(root.as_str());
    proof {
        reveal_strlit("/gallery");
    }
    let mut url = text_of(&chars, 0, chars.len() - 8);
    url.append("/asset/");
    url.append(encode(publisher).as_str());
    url.append("/");
    url.append(encode(name).as_str());
    url.append("/");
    url.append(encode(version).as_str());
    url.append("/");
    url.append(encode(asset_type).as_str());
    url.append("?targetPlatform=");
    url.append(encode(target_platform).as_str());
    Ok(url)
}

/// The build that an asset request is for.
#[derive(Debug)]
pub struct GalleryAssetCoordinate {
    pub repo_key: String,
    pub publisher: String,
    pub name: String,
    pub version: String,
    pub target_platform: String,
}

/// Where an asset is fetched from, what it is kept under, and what it is taken to be.
#[derive(Debug)]
pub struct GalleryAssetSource {
    pub upstream_url: String,
    pub cache_path: String,
    pub default_content_type: String,
}

/// The path that a whole package is kept under.
pub open spec fn package_cache_path(
    publisher: Seq<char>,
    name: Seq<char>,
    version: Seq<char>,
    platform: Seq<char>,
) -> Seq<char> {
    "gallery/"@ + coordinate_path(publisher, name, version, platform) + "/vspackage"@
}

/// Where the upstream at `gallery_url` serves a whole package.
pub open spec fn upstream_package(
    gallery_url: Seq<char>,
    publisher: Seq<char>,
    name: Seq<char>,
    version: Seq<char>,
    platform: Seq<char>,
) -> Seq<char> {
    crate::text::without_trailing(gallery_url, '/') + "/publishers/"@ + crate::percent::encoded(
        publisher,
    ) + "/vsextensions/"@ + crate::percent::encoded(name) + "/"@ + crate::percent::encoded(version)
        + "/vspackage?targetPlatform="@ + crate::percent::encoded(platform)
}

/// The path that one asset of a package is kept under.
pub open spec fn asset_cache_path(
    publisher: Seq<char>,
    name: Seq<char>,
    version: Seq<char>,
    platform: Seq<char>,
    asset_type: Seq<char>,
) -> Seq<char> {
    "gallery/"@ + coordinate_path(publisher, name, version, platform) + "/asset-"@ + sha256_text(
        vstd::utf8::encode_utf8(asset_type),
    )
}

/// Whether the coordinate is the given one.
pub open spec fn is_coordinate(
    coordinate: GalleryAssetCoordinate,
    repo_key: Seq<char>,
    publisher: Seq<char>,
    name: Seq<char>,
    version: Seq<char>,
    platform: Seq<char>,
) -> bool {
    &&& coordinate.repo_key@ == repo_key
    &&& coordinate.publisher@ == publisher
    &&& coordinate.name@ == name
    &&& coordinate.version@ == version
    &&& coordinate.target_platform@ == platform
}

/// Why a request for a build is refused, if it is: first for a part that may not stand in a path,
/// then for its platform.
pub open spec fn request_error(
    publisher: Seq<char>,
    name: Seq<char>,
    version: Seq<char>,
    platform: Seq<char>,
    asset_type: Option<Seq<char>>,
) -> Option<GalleryError> {
    if !(crate::coordinate::safe_segment(publisher) && crate::coordinate::safe_segment(name)
        && crate::coordinate::safe_segment(version) && crate::coordinate::safe_segment(platform)
        && (asset_type is Some ==> crate::coordinate::safe_segment(asset_type->Some_0))) {
        Some(GalleryError::InvalidPath)
    } else if !crate::coordinate::safe_platform(platform) {
        Some(GalleryError::InvalidTargetPlatform)
    } else {
        None
    }
}

/// The source of a whole package. The platform that the client means is both asked for and kept
/// under.
pub fn gallery_vspackage(
    upstream_url: &str,
    repo_key: &str,
    publisher: &str,
    name: &str,
    version: &str,
    target_platform: Option<&str>,
) -> (request: Result<(GalleryAssetCoordinate, GalleryAssetSource), GalleryError>)
    ensures
        ({
            let platform = crate::coordinate::platform_of(
                crate::coordinate::str_opt(target_platform),
            );
            let refused = request_error(publisher@, name@, version@, platform, None);
            match request {
                Ok((coordinate, source)) => {
                    &&& refused is None
                    &&& is_coordinate(
                        coordinate,
                        repo_key@,
                        publisher@,
                        name@,
                        version@,
                        platform,
                    )
                    &&& source.upstream_url@ == upstream_package(
                        upstream_url@,
                        publisher@,
                        name@,
                        version@,
                        platform,
                    )
                    &&& source.cache_path@ == package_cache_path(
                        publisher@,
                        name@,
                        version@,
                        platform,
                    )
                    &&& source.default_content_type@ == "application/vsix"@
                },
                Err(error) => refused == Some(error),
            }
        }),
{
    let platform = normal_target_platform(target_platform);
    validate_gallery_request_segment(publisher)?;
    validate_gallery_request_segment(name)?;
    validate_gallery_request_segment(version)?;
    validate_gallery_request_segment(platform.as_str())?;
    validate_target_platform(platform.as_str(), false)?;
    let mut url = trim_trailing(upstream_url, '/');
    url.append("/publishers/");
    url.append(encode(publisher).as_str());
    url.append("/vsextensions/");
    url.append(encode(name).as_str());
    url.append("/");
    url.append(encode(version).as_str());
    url.append("/vspackage?targetPlatform=");
    url.append(encode(platform.as_str()).as_str());
    let mut cache_path = "gallery/".to_string();
    append_coordinate(&mut cache_path, publisher, name, version, platform.as_str());
    cache_path.append("/vspackage");
    let source = GalleryAssetSource {
        upstream_url: url,
        cache_path,
        default_content_type: "application/vsix".to_string(),
    };
    let coordinate = GalleryAssetCoordinate {
        repo_key: repo_key.to_string(),
        publisher: publisher.to_string(),
        name: name.to_string(),
        version: version.to_string(),
        target_platform: platform,
    };
    Ok((coordinate, source))
}

/// The source of one asset of a package.
pub fn gallery_asset(
    upstream_url: &str,
    repo_key: &str,
    publisher: &str,
    name: &str,
    version: &str,
    target_platform: &str,
    asset_type: &str,
) -> (request: Result<(GalleryAssetCoordinate, GalleryAssetSource), GalleryError>)
    ensures
        ({
            let platform = crate::coordinate::platform_of(Some(target_platform@));
            let url = upstream_asset(
                upstream_url@,
                publisher@,
                name@,
                version@,
                asset_type@,
                platform,
            );
            let refused = request_error(publisher@, name@, version@, platform, Some(asset_type@));
            match request {
                Ok((coordinate, source)) => {
                    &&& refused is None
                    &&& is_coordinate(
                        coordinate,
                        repo_key@,
                        publisher@,
                        name@,
                        version@,
                        platform,
                    )
                    &&& url == Ok::<Seq<char>, GalleryError>(source.upstream_url@)
                    &&& source.cache_path@ == asset_cache_path(
                        publisher@,
                        name@,
                        version@,
                        platform,
                        asset_type@,
                    )
                    &&& source.default_content_type@ == "application/octet-stream"@
                },
                Err(error) => refused == Some(error) || (refused is None && url == Err::<
                    Seq<char>,
                    GalleryError,
                >(error)),
            }
        }),
{
    let platform = normal_target_platform(Some(target_platform));
    validate_gallery_request_segment(publisher)?;
    validate_gallery_request_segment(name)?;
    validate_gallery_request_segment(version)?;
    validate_gallery_request_segment(platform.as_str())?;
    validate_gallery_request_segment(asset_type)?;
    validate_target_platform(platform.as_str(), false)?;
    let url = openvsx_asset_url(
        upstream_url,
        publisher,
        name,
        version,
        asset_type,
        platform.as_str(),
    )?;
    let mut cache_path = "gallery/".to_string();
    append_coordinate(&mut cache_path, publisher, name, version, platform.as_str());
    cache_path.append("/asset-");
    cache_path.append(sha256_hex(asset_type.as_bytes()).as_str());
    let source = GalleryAssetSource {
        upstream_url: url,
        cache_path,
        default_content_type: "application/octet-stream".to_string(),
    };
    let coordinate = GalleryAssetCoordinate {
        repo_key: repo_key.to_string(),
        publisher: publisher.to_string(),
        name: name.to_string(),
        version: version.to_string(),
        target_platform: platform,
    };
    Ok((coordinate, source))
}

/// The page of a repository.
pub open spec fn item_page(repo_key: Seq<char>) -> Seq<char> {
    "/repositories/"@ + crate::percent::encoded(repo_key)
}

/// The page that an item request is sent on to. It names no host, so it cannot leave the server.
pub fn gallery_item(repo_key: &str) -> (page: String)
    ensures
        page@ == item_page(repo_key@),
{
    let mut page = "/repositories/".to_string();
    page.append(encode(repo_key).as_str());
    page
}

/// The path of a package on an upstream that serves packages without platforms.
pub open spec fn legacy_path(publisher: Seq<char>, name: Seq<char>, version: Seq<char>) -> Result<
    Seq<char>,
    GalleryError,
> {
    if crate::coordinate::safe_segment(publisher) && crate::coordinate::safe_segment(name)
        && crate::coordinate::safe_segment(version) {
        Ok(
            "extensions/"@ + crate::percent::encoded(publisher) + "/"@ + crate::percent::encoded(
                name,
            ) + "/"@ + crate::percent::encoded(version) + "/download"@,
        )
    } else {
        Err(GalleryError::InvalidPath)
    }
}

/// The path of a package on an upstream that serves packages without platforms.
pub fn legacy_download_upstream_path(publisher: &str, name: &str, version: &str) -> (path: Result<
    String,
    GalleryError,
>)
    ensures
        text_or_error(path) == legacy_path(publisher@, name@, version@),
{
    validate_gallery_request_segment(publisher)?;
    validate_gallery_request_segment(name)?;
    validate_gallery_request_segment(version)?;
    let mut path = "extensions/".to_string();
    path.append(encode(publisher).as_str());
    path.append("/");
    path.append(encode(name).as_str());
    path.append("/");
    path.append(encode(version).as_str());
    path.append("/download");
    Ok(path)
}

/// The name of an extension within its repository.
pub open spec fn extension_id(publisher: Seq<char>, name: Seq<char>) -> Seq<char> {
    publisher + "."@ + name
}

/// The name of an extension within its repository.
pub fn build_extension_id(publisher: &str, name: &str) -> (id: String)
    ensures
        id@ == extension_id(publisher@, name@),
{
    let mut id = publisher.to_string();
    id.append(".");
    id.append(name);
    id
}

/// The file name of a package.
pub open spec fn vsix_filename(publisher: Seq<char>, name: Seq<char>, version: Seq<char>) -> Seq<
    char,
> {
    extension_id(publisher, name) + "-"@ + version + ".vsix"@
}

/// The file name of a package.
pub fn build_vsix_filename(publisher: &str, name: &str, version: &str) -> (filename: String)
    ensures
        filename@ == vsix_filename(publisher@, name@, version@),
{
    let mut filename = build_extension_id(publisher, name);
    filename.append("-");
    filename.append(version);
    filename.append(".vsix");
    filename
}

/// The path of a package within its repository.
pub open spec fn artifact_path(publisher: Seq<char>, name: Seq<char>, version: Seq<char>) -> Seq<
    char,
> {
    publisher + "/"@ + name + "/"@ + vsix_filename(publisher, name, version)
}

/// The path of a package within its repository.
pub fn build_vscode_artifact_path(publisher: &str, name: &str, version: &str) -> (path: String)
    ensures
        path@ == artifact_path(publisher@, name@, version@),
{
    let mut path = publisher.to_string();
    path.append("/");
    path.append(name);
    path.append("/");
    path.append(build_vsix_filename(publisher, name, version).as_str());
    path
}

/// The key that a package is stored under.
pub fn build_vscode_storage_key(publisher: &str, name: &str, version: &str) -> (key: String)
    ensures
        key@ == "vscode/"@ + artifact_path(publisher@, name@, version@),
{
    let mut key = "vscode/".to_string();
    key.append(build_vscode_artifact_path(publisher, name, version).as_str());
    key
}

/// Where a hosted package is downloaded.
pub open spec fn download_url(
    repo_key: Seq<char>,
    publisher: Seq<char>,
    name: Seq<char>,
    version: Seq<char>,
) -> Seq<char> {
    "/vscode/"@ + repo_key + "/extensions/"@ + publisher + "/"@ + name + "/"@ + version
        + "/download"@
}

/// Where a hosted package is downloaded.
pub fn build_vscode_download_url(
    repo_key: &str,
    publisher: &str,
    name: &str,
    version: &str,
) -> (url: String)
    ensures
        url@ == download_url(repo_key@, publisher@, name@, version@),
{
    let mut url = "/vscode/".to_string();
    url.append(repo_key);
    url.append("/extensions/");
    url.append(publisher);
    url.append("/");
    url.append(name);
    url.append("/");
    url.append(version);
    url.append("/download");
    url
}

/// The file name that a downloaded package is saved under.
pub fn build_vsix_download_filename(publisher: &str, name: &str, version: &str) -> (filename:
    String)
    ensures
        filename@ == vsix_filename(publisher@, name@, version@),
{
    let mut filename = publisher.to_string();
    filename.append(".");
    filename.append(name);
    filename.append("-");
    filename.append(version);
    filename.append(".vsix");
    filename
}

/// A build's path, followed by another segment, is cut in one way only.
proof fn lemma_coordinate_path(
    p: Seq<char>,
    n: Seq<char>,
    v: Seq<char>,
    t: Seq<char>,
    x: Seq<char>,
    p2: Seq<char>,
    n2: Seq<char>,
    v2: Seq<char>,
    t2: Seq<char>,
    x2: Seq<char>,
)
    requires
        coordinate_path(p, n, v, t) + "/"@ + x == coordinate_path(p2, n2, v2, t2) + "/"@ + x2,
    ensures
        p == p2,
        n == n2,
        v == v2,
        t == t2,
        x == x2,
{
    reveal_strlit("/");
    let slash = seq!['/'];
    assert("/"@ =~= slash);
    let (ep, en, ev, et) = (
        crate::percent::encoded(p),
        crate::percent::encoded(n),
        crate::percent::encoded(v),
        crate::percent::encoded(t),
    );
    let (ep2, en2, ev2, et2) = (
        crate::percent::encoded(p2),
        crate::percent::encoded(n2),
        crate::percent::encoded(v2),
        crate::percent::encoded(t2),
    );
    crate::percent::encoding_is_one_segment(p);
    crate::percent::encoding_is_one_segment(n);
    crate::percent::encoding_is_one_segment(v);
    crate::percent::encoding_is_one_segment(t);
    crate::percent::encoding_is_one_segment(p2);
    crate::percent::encoding_is_one_segment(n2);
    crate::percent::encoding_is_one_segment(v2);
    crate::percent::encoding_is_one_segment(t2);
    let r1 = et + slash + x;
    let r2 = et2 + slash + x2;
    let s1 = ev + slash + r1;
    let s2 = ev2 + slash + r2;
    let u1 = en + slash + s1;
    let u2 = en2 + slash + s2;
    assert(coordinate_path(p, n, v, t) + slash + x =~= ep + slash + u1);
    assert(coordinate_path(p2, n2, v2, t2) + slash + x2 =~= ep2 + slash + u2);
    crate::text::lemma_cut_at_first(ep, u1, ep2, u2, '/');
    crate::text::lemma_cut_at_first(en, s1, en2, s2, '/');
    crate::text::lemma_cut_at_first(ev, r1, ev2, r2, '/');
    crate::text::lemma_cut_at_first(et, x, et2, x2, '/');
    crate::percent::encoding_is_injective(p, p2);
    crate::percent::encoding_is_injective(n, n2);
    crate::percent::encoding_is_injective(v, v2);
    crate::percent::encoding_is_injective(t, t2);
}

/// Packages share a cache path only where all of their coordinate is the same, so what one cache
/// path holds is fetched from one upstream URL.
pub proof fn one_package_path_one_source(
    publisher: Seq<char>,
    name: Seq<char>,
    version: Seq<char>,
    platform: Seq<char>,
    other_publisher: Seq<char>,
    other_name: Seq<char>,
    other_version: Seq<char>,
    other_platform: Seq<char>,
    gallery_url: Seq<char>,
)
    requires
        package_cache_path(publisher, name, version, platform) == package_cache_path(
            other_publisher,
            other_name,
            other_version,
            other_platform,
        ),
    ensures
        publisher == other_publisher,
        name == other_name,
        version == other_version,
        platform == other_platform,
        upstream_package(gallery_url, publisher, name, version, platform) == upstream_package(
            gallery_url,
            other_publisher,
            other_name,
            other_version,
            other_platform,
        ),
{
    let left = package_cache_path(publisher, name, version, platform);
    let right = package_cache_path(other_publisher, other_name, other_version, other_platform);
    lemma_package_tail(publisher, name, version, platform);
    lemma_package_tail(other_publisher, other_name, other_version, other_platform);
    assert(left.skip(8) == right.skip(8));
    lemma_coordinate_path(
        publisher,
        name,
        version,
        platform,
        "vspackage"@,
        other_publisher,
        other_name,
        other_version,
        other_platform,
        "vspackage"@,
    );
}

proof fn lemma_package_tail(p: Seq<char>, n: Seq<char>, v: Seq<char>, t: Seq<char>)
    ensures
        package_cache_path(p, n, v, t).skip(8) == coordinate_path(p, n, v, t) + "/"@
            + "vspackage"@,
{
    reveal_strlit("gallery/");
    reveal_strlit("/");
    reveal_strlit("vspackage");
    reveal_strlit("/vspackage");
    assert("/vspackage"@ =~= "/"@ + "vspackage"@);
    assert(package_cache_path(p, n, v, t).skip(8) =~= coordinate_path(p, n, v, t) + "/"@
        + "vspackage"@);
}

proof fn lemma_asset_tail(p: Seq<char>, n: Seq<char>, v: Seq<char>, t: Seq<char>, a: Seq<char>)
    ensures
        asset_cache_path(p, n, v, t, a).skip(8) == coordinate_path(p, n, v, t) + "/"@ + ("asset-"@
            + sha256_text(vstd::utf8::encode_utf8(a))),
{
    reveal_strlit("gallery/");
    reveal_strlit("/");
    reveal_strlit("asset-");
    reveal_strlit("/asset-");
    assert("/asset-"@ =~= "/"@ + "asset-"@);
    assert(asset_cache_path(p, n, v, t, a).skip(8) =~= coordinate_path(p, n, v, t) + "/"@ + (
    "asset-"@ + sha256_text(vstd::utf8::encode_utf8(a))));
}

/// Assets share a cache path only where all of their coordinate and the digest of their type are
/// the same.
pub proof fn asset_paths_tell_assets_apart(
    publisher: Seq<char>,
    name: Seq<char>,
    version: Seq<char>,
    platform: Seq<char>,
    asset_type: Seq<char>,
    other_publisher: Seq<char>,
    other_name: Seq<char>,
    other_version: Seq<char>,
    other_platform: Seq<char>,
    other_asset_type: Seq<char>,
)
    requires
        asset_cache_path(publisher, name, version, platform, asset_type) == asset_cache_path(
            other_publisher,
            other_name,
            other_version,
            other_platform,
            other_asset_type,
        ),
    ensures
        publisher == other_publisher,
        name == other_name,
        version == other_version,
        platform == other_platform,
        sha256_text(vstd::utf8::encode_utf8(asset_type)) == sha256_text(
            vstd::utf8::encode_utf8(other_asset_type),
        ),
{
    lemma_asset_tail(publisher, name, version, platform, asset_type);
    lemma_asset_tail(other_publisher, other_name, other_version, other_platform, other_asset_type);
    let digest = sha256_text(vstd::utf8::encode_utf8(asset_type));
    let other_digest = sha256_text(vstd::utf8::encode_utf8(other_asset_type));
    lemma_coordinate_path(
        publisher,
        name,
        version,
        platform,
        "asset-"@ + digest,
        other_publisher,
        other_name,
        other_version,
        other_platform,
        "asset-"@ + other_digest,
    );
    reveal_strlit("asset-");
    assert(digest =~= ("asset-"@ + digest).skip(6));
    assert(other_digest =~= ("asset-"@ + other_digest).skip(6));
}

/// No asset is kept where a package is kept.
pub proof fn assets_and_packages_are_kept_apart(
    publisher: Seq<char>,
    name: Seq<char>,
    version: Seq<char>,
    platform: Seq<char>,
    asset_type: Seq<char>,
    other_publisher: Seq<char>,
    other_name: Seq<char>,
    other_version: Seq<char>,
    other_platform: Seq<char>,
)
    ensures
        asset_cache_path(publisher, name, version, platform, asset_type) != package_cache_path(
            other_publisher,
            other_name,
            other_version,
            other_platform,
        ),
{
    if asset_cache_path(publisher, name, version, platform, asset_type) == package_cache_path(
        other_publisher,
        other_name,
        other_version,
        other_platform,
    ) {
        lemma_asset_tail(publisher, name, version, platform, asset_type);
        lemma_package_tail(other_publisher, other_name, other_version, other_platform);
        let tail = "asset-"@ + sha256_text(vstd::utf8::encode_utf8(asset_type));
        lemma_coordinate_path(
            publisher,
            name,
            version,
            platform,
            tail,
            other_publisher,
            other_name,
            other_version,
            other_platform,
            "vspackage"@,
        );
        reveal_strlit("asset-");
        reveal_strlit("vspackage");
        assert(tail[0] == 'a');
        assert("vspackage"@[0] == 'v');
    }
}

/// Under one server, builds are served under one asset root only where repository and coordinate
/// are the same.
pub proof fn asset_roots_tell_builds_apart(
    base_url: Seq<char>,
    repo_key: Seq<char>,
    publisher: Seq<char>,
    name: Seq<char>,
    version: Seq<char>,
    platform: Seq<char>,
    other_repo_key: Seq<char>,
    other_publisher: Seq<char>,
    other_name: Seq<char>,
    other_version: Seq<char>,
    other_platform: Seq<char>,
)
    requires
        asset_root(base_url, repo_key, publisher, name, version, platform) == asset_root(
            base_url,
            other_repo_key,
            other_publisher,
            other_name,
            other_version,
            other_platform,
        ),
    ensures
        repo_key == other_repo_key,
        publisher == other_publisher,
        name == other_name,
        version == other_version,
        platform == other_platform,
{
    reveal_strlit("/asset/");
    reveal_strlit("/");
    reveal_strlit("asset/");
    assert("/asset/"@ =~= seq!['/'] + "asset/"@);
    let front = crate::text::without_trailing(base_url, '/') + "/vscode/"@;
    let key = crate::percent::encoded(repo_key);
    let other_key = crate::percent::encoded(other_repo_key);
    let path = coordinate_path(publisher, name, version, platform);
    let other_path = coordinate_path(
        other_publisher,
        other_name,
        other_version,
        other_platform,
    );
    let left = asset_root(base_url, repo_key, publisher, name, version, platform);
    let right = asset_root(
        base_url,
        other_repo_key,
        other_publisher,
        other_name,
        other_version,
        other_platform,
    );
    assert(left.skip(front.len() as int) =~= key + seq!['/'] + ("asset/"@ + path));
    assert(right.skip(front.len() as int) =~= other_key + seq!['/'] + ("asset/"@ + other_path));
    crate::percent::encoding_is_one_segment(repo_key);
    crate::percent::encoding_is_one_segment(other_repo_key);
    crate::text::lemma_cut_at_first(
        key,
        "asset/"@ + path,
        other_key,
        "asset/"@ + other_path,
        '/',
    );
    crate::percent::encoding_is_injective(repo_key, other_repo_key);
    assert(path =~= ("asset/"@ + path).skip(6));
    assert(other_path =~= ("asset/"@ + other_path).skip(6));
    lemma_coordinate_path(
        publisher,
        name,
        version,
        platform,
        Seq::empty(),
        other_publisher,
        other_name,
        other_version,
        other_platform,
        Seq::empty(),
    );
}

} // verus!
