//! Hosted extensions: listing, downloading and publishing packages that a repository keeps itself.

use vstd::prelude::*;

use crate::coordinate::vscode_age_gate_package;
use crate::envelope::gallery_results_envelope;
use crate::error::GalleryError;
use crate::json::{Json, JsonValue};
use crate::repository::RepoInfo;
use crate::urls::{
    build_extension_id, build_vscode_artifact_path, build_vscode_download_url,
    build_vscode_storage_key, build_vsix_download_filename, build_vsix_filename, checksum_sha256,
    legacy_download_upstream_path,
};

verus! {

/// One stored package, as it is listed.
#[derive(Debug)]
pub struct HostedArtifact {
    pub name: String,
    pub version: Option<String>,
    pub metadata: Option<Json>,
}

/// The text at `key` of stored metadata, if there is one.
pub open spec fn metadata_text(metadata: Option<JsonValue>, key: Seq<char>) -> Option<Seq<char>> {
    match metadata {
        Some(metadata) => metadata.text_at(key),
        None => None,
    }
}

/// The publisher of a stored package.
pub open spec fn hosted_publisher(artifact: HostedArtifact) -> Seq<char> {
    match metadata_text(crate::json::json_view_opt(artifact.metadata), "publisher"@) {
        Some(publisher) => publisher,
        None => "unknown"@,
    }
}

/// The extension name of a stored package.
pub open spec fn hosted_name(artifact: HostedArtifact) -> Seq<char> {
    match metadata_text(crate::json::json_view_opt(artifact.metadata), "extension_name"@) {
        Some(name) => name,
        None => artifact.name@,
    }
}

/// The version of a stored package, empty where it has none.
pub open spec fn hosted_version(artifact: HostedArtifact) -> Seq<char> {
    match artifact.version {
        Some(version) => version@,
        None => Seq::empty(),
    }
}

/// The extension record of a stored package.
pub open spec fn hosted_record(repo_key: Seq<char>, artifact: HostedArtifact) -> JsonValue {
    let publisher = hosted_publisher(artifact);
    let name = hosted_name(artifact);
    let version = hosted_version(artifact);
    let record = crate::json::empty_object().with("version"@, JsonValue::Text(version)).with(
        "assetUri"@,
        JsonValue::Text(crate::urls::download_url(repo_key, publisher, name, version)),
    );
    crate::json::empty_object().with(
        "publisher"@,
        crate::json::empty_object().with("publisherName"@, JsonValue::Text(publisher)),
    ).with("extensionName"@, JsonValue::Text(name)).with(
        "versions"@,
        JsonValue::List(seq![record]),
    )
}

/// The extension records of stored packages.
pub open spec fn hosted_records(repo_key: Seq<char>, artifacts: Seq<HostedArtifact>) -> Seq<
    JsonValue,
> {
    artifacts.map_values(|artifact: HostedArtifact| hosted_record(repo_key, artifact))
}

/// The text at `key` of stored metadata, else the given one.
fn text_in(metadata: &Option<Json>, key: &str, otherwise: &str) -> (text: String)
    ensures
        text@ == (match metadata_text(crate::json::json_view_opt(*metadata), key@) {
            Some(text) => text,
            None => otherwise@,
        }),
{
    match metadata {
        Some(metadata) => match metadata.get_str(key) {
            Some(text) => text.to_string(),
            None => otherwise.to_string(),
        },
        None => otherwise.to_string(),
    }
}

/// The extension record of a stored package.
fn hosted_json(repo_key: &str, artifact: &HostedArtifact) -> (json: Json)
    ensures
        json@ == hosted_record(repo_key@, *artifact),
{
    let publisher = text_in(&artifact.metadata, "publisher", "unknown");
    let name = text_in(&artifact.metadata, "extension_name", artifact.name.as_str());
    let version = match &artifact.version {
        Some(version) => version.as_str().to_string(),
        None => String::new(),
    };
    assert(version@ =~= hosted_version(*artifact));
    let url = build_vscode_download_url(
        repo_key,
        publisher.as_str(),
        name.as_str(),
        version.as_str(),
    );
    let mut record = Json::object();
    record.insert("version", Json::Text(version));
    record.insert("assetUri", Json::Text(url));
    let mut owner = Json::object();
    owner.insert("publisherName", Json::Text(publisher));
    let mut records: Vec<Json> = Vec::new();
    records.push(record);
    assert(crate::json::json_views(records@) =~= seq![record@]);
    let mut json = Json::object();
    json.insert("publisher", owner);
    json.insert("extensionName", Json::Text(name));
    json.insert("versions", Json::list(records));
    json
}

/// The listing of a repository's own packages, with their count.
pub fn query_extensions(repo_key: &str, artifacts: &Vec<HostedArtifact>) -> (listing: Json)
    ensures
        listing@ == crate::envelope::enveloped(hosted_records(repo_key@, artifacts@), None),
{
    let mut extensions: Vec<Json> = Vec::new();
    let mut i: usize = 0;
    while i < artifacts.len()
        invariant
            i <= artifacts@.len(),
            extensions@.len() == i,
            forall|k: int|
                0 <= k < i ==> (#[trigger] extensions@[k])@ == hosted_record(
                    repo_key@,
                    artifacts@[k],
                ),
        decreases artifacts@.len() - i,
    {
        extensions.push(hosted_json(repo_key, &artifacts[i]));
        i += 1;
    }
    assert(crate::json::json_views(extensions@) =~= hosted_records(repo_key@, artifacts@));
    gallery_results_envelope(extensions, None)
}

/// The record of a repository's latest package of an extension.
pub open spec fn latest_record(
    repo_key: Seq<char>,
    publisher: Seq<char>,
    name: Seq<char>,
    version: Seq<char>,
    checksum: Seq<char>,
    size: i64,
) -> JsonValue {
    crate::json::empty_object().with("publisher"@, JsonValue::Text(publisher)).with(
        "name"@,
        JsonValue::Text(name),
    ).with("version"@, JsonValue::Text(version)).with("sha256"@, JsonValue::Text(checksum)).with(
        "size"@,
        JsonValue::Number(crate::json::signed_number(size)),
    ).with(
        "downloadUrl"@,
        JsonValue::Text(crate::urls::download_url(repo_key, publisher, name, version)),
    )
}

/// The record of a repository's latest package of an extension.
pub fn latest_version(
    repo_key: &str,
    publisher: &str,
    name: &str,
    version: &Option<String>,
    checksum_sha256: &str,
    size_bytes: i64,
) -> (record: Json)
    ensures
        record@ == latest_record(
            repo_key@,
            publisher@,
            name@,
            match *version {
                Some(version) => version@,
                None => Seq::empty(),
            },
            checksum_sha256@,
            size_bytes,
        ),
{
    let version_name = match version {
        Some(version) => version.as_str().to_string(),
        None => String::new(),
    };
    assert(version_name@ =~= (match *version {
        Some(version) => version@,
        None => Seq::empty(),
    }));
    let url = build_vscode_download_url(repo_key, publisher, name, version_name.as_str());
    let mut record = Json::object();
    record.insert("publisher", Json::text(publisher));
    record.insert("name", Json::text(name));
    record.insert("version", Json::Text(version_name));
    record.insert("sha256", Json::text(checksum_sha256));
    record.insert("size", Json::signed(size_bytes));
    record.insert("downloadUrl", Json::Text(url));
    record
}

/// Refuses to pull a package through a route that has no platform and no publish time to gate by,
/// while the repository's age gate is on.
pub fn reject_ungateable_legacy_pull_through(repo: &RepoInfo) -> (checked: Result<
    (),
    GalleryError,
>)
    ensures
        checked == (if repo.remote() && repo.age_gate_enabled {
            Err::<(), GalleryError>(GalleryError::LegacyGateUnavailable)
        } else {
            Ok(())
        }),
{
    if repo.is_remote() && repo.age_gate_enabled {
        return Err(GalleryError::LegacyGateUnavailable);
    }
    Ok(())
}

/// What is pulled through for a package that the repository does not have.
#[derive(Debug)]
pub struct LegacyPullThrough {
    /// Its path on the upstream.
    pub upstream_path: String,
    /// The identity that the operator's list knows it by.
    pub package: String,
}

/// What is pulled through for a package that the repository does not have, or why nothing is:
/// first the age gate, then the path.
pub fn download_vsix(repo: &RepoInfo, publisher: &str, name: &str, version: &str) -> (plan: Result<
    LegacyPullThrough,
    GalleryError,
>)
    ensures
        match plan {
            Ok(plan) => {
                &&& !(repo.remote() && repo.age_gate_enabled)
                &&& crate::urls::legacy_path(publisher@, name@, version@) == Ok::<
                    Seq<char>,
                    GalleryError,
                >(plan.upstream_path@)
                &&& plan.package@ == crate::coordinate::package_of(publisher@, name@)
            },
            Err(error) => if repo.remote() && repo.age_gate_enabled {
                error == GalleryError::LegacyGateUnavailable
            } else {
                crate::urls::legacy_path(publisher@, name@, version@) == Err::<
                    Seq<char>,
                    GalleryError,
                >(error)
            },
        },
{
    reject_ungateable_legacy_pull_through(repo)?;
    let upstream_path = legacy_download_upstream_path(publisher, name, version)?;
    Ok(LegacyPullThrough { upstream_path, package: vscode_age_gate_package(publisher, name) })
}

/// Where a package that the repository does not have is looked for.
#[derive(Debug)]
pub enum LegacyRoute {
    /// On the upstream with this URL.
    Upstream(String),
    /// In the member repositories.
    Members,
    /// Nowhere.
    NotFound,
}

/// Where a package that the repository does not have is looked for: a Remote repository's
/// upstream, where there is one and a proxy to reach it; a Virtual repository's members.
pub fn legacy_route(repo: &RepoInfo, proxy_available: bool) -> (route: LegacyRoute)
    ensures
        match route {
            LegacyRoute::Upstream(url) => repo.remote() && proxy_available && repo.upstream()
                == Some(url@),
            LegacyRoute::Members => repo.aggregate(),
            LegacyRoute::NotFound => !repo.aggregate() && !(repo.remote() && proxy_available
                && repo.upstream() is Some),
        },
{
    if repo.is_remote() && proxy_available {
        if let Some(url) = &repo.upstream_url {
            return LegacyRoute::Upstream(url.as_str().to_string());
        }
    }
    if repo.is_virtual() {
        LegacyRoute::Members
    } else {
        LegacyRoute::NotFound
    }
}

/// The header that has a client save a package under its file name.
pub fn content_disposition(publisher: &str, name: &str, version: &str) -> (header: String)
    ensures
        header@ == "attachment; filename=\""@ + crate::urls::vsix_filename(
            publisher@,
            name@,
            version@,
        ) + "\""@,
{
    let mut header = "attachment; filename=\"".to_string();
    header.append(build_vsix_download_filename(publisher, name, version).as_str());
    header.append("\"");
    header
}

/// The metadata that a published package is stored with.
pub open spec fn package_metadata(
    publisher: Seq<char>,
    name: Seq<char>,
    version: Seq<char>,
) -> JsonValue {
    crate::json::empty_object().with("publisher"@, JsonValue::Text(publisher)).with(
        "extension_name"@,
        JsonValue::Text(name),
    ).with("version"@, JsonValue::Text(version)).with(
        "filename"@,
        JsonValue::Text(crate::urls::vsix_filename(publisher, name, version)),
    )
}

/// The metadata that a published package is stored with.
pub fn build_vscode_metadata(publisher: &str, name: &str, version: &str) -> (metadata: Json)
    ensures
        metadata@ == package_metadata(publisher@, name@, version@),
{
    let mut metadata = Json::object();
    metadata.insert("publisher", Json::text(publisher));
    metadata.insert("extension_name", Json::text(name));
    metadata.insert("version", Json::text(version));
    metadata.insert("filename", Json::Text(build_vsix_filename(publisher, name, version)));
    metadata
}

/// The answer to a published package.
pub open spec fn publish_answer(
    publisher: Seq<char>,
    name: Seq<char>,
    version: Seq<char>,
) -> JsonValue {
    crate::json::empty_object().with("publisher"@, JsonValue::Text(publisher)).with(
        "name"@,
        JsonValue::Text(name),
    ).with("version"@, JsonValue::Text(version)).with(
        "message"@,
        JsonValue::Text("Successfully published extension"@),
    )
}

/// The answer to a published package.
pub fn build_vscode_publish_response(publisher: &str, name: &str, version: &str) -> (answer: Json)
    ensures
        answer@ == publish_answer(publisher@, name@, version@),
{
    let mut answer = Json::object();
    answer.insert("publisher", Json::text(publisher));
    answer.insert("name", Json::text(name));
    answer.insert("version", Json::text(version));
    answer.insert("message", Json::text("Successfully published extension"));
    answer
}

/// What publishing a package stores and answers.
#[derive(Debug)]
pub struct PublishPlan {
    pub extension_id: String,
    pub version: String,
    pub checksum_sha256: String,
    pub content_type: String,
    pub artifact_path: String,
    pub storage_key: String,
    pub metadata: Json,
    pub answer: Json,
}

/// Why a package cannot be published, if so: it is empty, or the request does not say what it is.
pub open spec fn publish_error(
    body: Seq<u8>,
    publisher: Option<Seq<char>>,
    name: Option<Seq<char>>,
    version: Option<Seq<char>>,
) -> Option<GalleryError> {
    if body.len() == 0 {
        Some(GalleryError::EmptyPackage)
    } else if publisher is None {
        Some(GalleryError::MissingPublisher)
    } else if name is None {
        Some(GalleryError::MissingExtensionName)
    } else if version is None {
        Some(GalleryError::MissingExtensionVersion)
    } else {
        None
    }
}

/// What publishing a package stores and answers. Publisher, name and version are what the
/// request's headers say, where they are text.
pub fn publish_extension(
    body: &[u8],
    publisher: Option<&str>,
    name: Option<&str>,
    version: Option<&str>,
) -> (plan: Result<PublishPlan, GalleryError>)
    ensures
        ({
            let refused = publish_error(
                body@,
                crate::coordinate::str_opt(publisher),
                crate::coordinate::str_opt(name),
                crate::coordinate::str_opt(version),
            );
            match plan {
                Ok(plan) => {
                    let p = publisher->Some_0@;
                    let n = name->Some_0@;
                    let v = version->Some_0@;
                    &&& refused is None
                    &&& plan.extension_id@ == crate::urls::extension_id(p, n)
                    &&& plan.version@ == v
                    &&& plan.checksum_sha256@ == crate::urls::sha256_text(body@)
                    &&& plan.content_type@ == "application/vsix"@
                    &&& plan.artifact_path@ == crate::urls::artifact_path(p, n, v)
                    &&& plan.storage_key@ == "vscode/"@ + crate::urls::artifact_path(p, n, v)
                    &&& plan.metadata@ == package_metadata(p, n, v)
                    &&& plan.answer@ == publish_answer(p, n, v)
                },
                Err(error) => refused == Some(error),
            }
        }),
{
    if body.len() == 0 {
        return Err(GalleryError::EmptyPackage);
    }
    let publisher = match publisher {
        Some(publisher) => publisher,
        None => return Err(GalleryError::MissingPublisher),
    };
    let name = match name {
        Some(name) => name,
        None => return Err(GalleryError::MissingExtensionName),
    };
    let version = match version {
        Some(version) => version,
        None => return Err(GalleryError::MissingExtensionVersion),
    };
    Ok(
        PublishPlan {
            extension_id: build_extension_id(publisher, name),
            version: version.to_string(),
            checksum_sha256: checksum_sha256(body),
            content_type: "application/vsix".to_string(),
            artifact_path: build_vscode_artifact_path(publisher, name, version),
            storage_key: build_vscode_storage_key(publisher, name, version),
            metadata: build_vscode_metadata(publisher, name, version),
            answer: build_vscode_publish_response(publisher, name, version),
        },
    )
}

/// Refuses to publish what is already there.
pub fn refuse_existing(exists: bool) -> (checked: Result<(), GalleryError>)
    ensures
        checked == (if exists {
            Err::<(), GalleryError>(GalleryError::VersionExists)
        } else {
            Ok(())
        }),
{
    if exists {
        Err(GalleryError::VersionExists)
    } else {
        Ok(())
    }
}

/// A published package is listed under the publisher, name and version that it was published
/// with, and downloaded from the URL that they make.
pub proof fn published_packages_are_listed(
    repo_key: Seq<char>,
    artifact: HostedArtifact,
    publisher: Seq<char>,
    name: Seq<char>,
    version: Seq<char>,
)
    requires
        crate::json::json_view_opt(artifact.metadata) == Some(
            package_metadata(publisher, name, version),
        ),
        hosted_version(artifact) == version,
    ensures
        hosted_publisher(artifact) == publisher,
        hosted_name(artifact) == name,
        crate::response::publisher_of(hosted_record(repo_key, artifact)) == Some(publisher),
        hosted_record(repo_key, artifact).text_at("extensionName"@) == Some(name),
        match hosted_record(repo_key, artifact).list_at("versions"@) {
            Some(versions) => {
                &&& versions.len() == 1
                &&& versions[0].text_at("version"@) == Some(version)
                &&& versions[0].text_at("assetUri"@) == Some(
                    crate::urls::download_url(repo_key, publisher, name, version),
                )
            },
            None => false,
        },
{
    reveal_strlit("publisher");
    reveal_strlit("extension_name");
    reveal_strlit("version");
    reveal_strlit("filename");
    reveal_strlit("extensionName");
    reveal_strlit("versions");
    reveal_strlit("assetUri");
    assert("publisher"@.len() == 9);
    assert("extension_name"@.len() == 14);
    assert("version"@.len() == 7);
    assert("filename"@.len() == 8);
    assert("extensionName"@.len() == 13);
    assert("versions"@.len() == 8);
    assert("assetUri"@.len() == 8);
    assert("versions"@[0] != "assetUri"@[0]);
}

} // verus!
