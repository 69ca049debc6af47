//! Gallery documents: the identities they name, and the rewrite that puts every asset reference
//! in them under this server.

use vstd::prelude::*;

use crate::coordinate::{
    invalid_gallery_response, is_safe_gallery_segment, is_safe_target_platform,
    normal_target_platform, validate_gallery_response_segment, vscode_age_gate_package,
    vscode_age_gate_version,
};
use crate::error::GalleryError;
use crate::json::{Json, JsonValue};
use crate::percent::encode;
use crate::repository::RequestBaseUrl;
use crate::text::{first_segment, is_empty, last_segment};
use crate::time::{gallery_parse_last_updated, PublishTime};
use crate::urls::gallery_version_asset_base;

verus! {

/// The publisher that an extension record names.
pub open spec fn publisher_of(extension: JsonValue) -> Option<Seq<char>> {
    match extension.get("publisher"@) {
        Some(publisher) => publisher.text_at("publisherName"@),
        None => None,
    }
}

/// The publisher and name of an extension record, where both are there and may stand in a path.
pub open spec fn identity_of(extension: JsonValue) -> Option<(Seq<char>, Seq<char>)> {
    match (publisher_of(extension), extension.text_at("extensionName"@)) {
        (Some(publisher), Some(name)) => if crate::coordinate::safe_segment(publisher)
            && crate::coordinate::safe_segment(name) {
            Some((publisher, name))
        } else {
            None
        },
        _ => None,
    }
}

/// The publisher that an extension record names.
fn publisher_name(extension: &Json) -> (publisher: Option<&str>)
    ensures
        crate::coordinate::str_opt(publisher) == publisher_of(extension@),
{
    match extension.get("publisher") {
        Some(publisher) => publisher.get_str("publisherName"),
        None => None,
    }
}

/// The publisher and name of an extension record, and the identity that policies know it by,
/// where publisher and name are there and may stand in a path.
pub fn gallery_extension_identity(extension: &Json) -> (identity: Option<(String, String, String)>)
    ensures
        match identity {
            Some((publisher, name, package)) => {
                &&& identity_of(extension@) == Some((publisher@, name@))
                &&& package@ == crate::coordinate::package_of(publisher@, name@)
            },
            None => identity_of(extension@) is None,
        },
{
    let publisher = match publisher_name(extension) {
        Some(publisher) => publisher,
        None => return None,
    };
    let name = match extension.get_str("extensionName") {
        Some(name) => name,
        None => return None,
    };
    if !is_safe_gallery_segment(publisher) || !is_safe_gallery_segment(name) {
        return None;
    }
    Some(
        (publisher.to_string(), name.to_string(), vscode_age_gate_package(publisher, name)),
    )
}

/// The coordinate of a version record, where its name and its platform may stand in a path.
pub open spec fn version_coordinate(version: JsonValue) -> Option<Seq<char>> {
    match version.text_at("version"@) {
        Some(name) => {
            let platform = crate::coordinate::platform_of(version.text_at("targetPlatform"@));
            if crate::coordinate::safe_segment(name) && crate::coordinate::safe_platform(platform) {
                Some(crate::coordinate::coordinate_of(name, Some(platform)))
            } else {
                None
            }
        },
        None => None,
    }
}

/// The coordinate of a version record, where its name and its platform may stand in a path.
pub fn gallery_version_coordinate(version: &Json) -> (coordinate: Option<String>)
    ensures
        crate::error::text_opt(coordinate) == version_coordinate(version@),
{
    match version.get_str("version") {
        Some(name) => {
            let platform = normal_target_platform(version.get_str("targetPlatform"));
            if is_safe_gallery_segment(name) && is_safe_target_platform(platform.as_str()) {
                Some(vscode_age_gate_version(name, Some(platform.as_str())))
            } else {
                None
            }
        },
        None => None,
    }
}

/// When a version record says it was published, if it says so and the text names a moment.
pub open spec fn version_date(version: JsonValue) -> Option<(i64, u32)> {
    match version.text_at("lastUpdated"@) {
        Some(text) => crate::time::rfc3339_instant(text),
        None => None,
    }
}

/// When a version record says it was published.
pub fn gallery_last_updated(version: &Json) -> (date: Option<PublishTime>)
    ensures
        crate::time::time_view(date) == version_date(version@),
{
    match version.get_str("lastUpdated") {
        Some(text) => gallery_parse_last_updated(text),
        None => None,
    }
}

/// `items`, each rewritten by `f`, where `f` rewrites all of them.
pub open spec fn map_all(
    items: Seq<JsonValue>,
    f: spec_fn(JsonValue) -> Option<JsonValue>,
) -> Option<Seq<JsonValue>> {
    if forall|i: int| 0 <= i < items.len() ==> (#[trigger] f(items[i])) is Some {
        Some(Seq::new(items.len(), |i: int| f(items[i])->Some_0))
    } else {
        None
    }
}

/// `object` with its list at `key` rewritten by `f`, where it has one and `f` rewrites all of it.
pub open spec fn map_list(
    object: JsonValue,
    key: Seq<char>,
    f: spec_fn(JsonValue) -> Option<JsonValue>,
) -> Option<JsonValue> {
    match object.list_at(key) {
        Some(items) => match map_all(items, f) {
            Some(mapped) => Some(object.with(key, JsonValue::List(mapped))),
            None => None,
        },
        None => None,
    }
}

/// The type of the asset that a file record refers to: the one it names, else the last segment of
/// its source's path.
pub open spec fn asset_type_of(file: JsonValue, source: Seq<char>) -> Option<Seq<char>> {
    let tail = crate::text::after_last(crate::text::before_first(source, '?'), '/');
    match file.text_at("assetType"@) {
        Some(named) => if named.len() > 0 {
            Some(named)
        } else if tail.len() > 0 {
            Some(tail)
        } else {
            None
        },
        None => if tail.len() > 0 {
            Some(tail)
        } else {
            None
        },
    }
}

/// Where an asset is served under the asset root of its build.
pub open spec fn asset_source(root: Seq<char>, asset_type: Seq<char>) -> Seq<char> {
    root + "/"@ + crate::percent::encoded(asset_type)
}

/// A file record whose source, if it has one, is under `root`.
pub open spec fn rewritten_file(file: JsonValue, root: Seq<char>) -> Option<JsonValue> {
    match file.get("source"@) {
        None => Some(file),
        Some(source) => match source.as_text() {
            Some(source) => match asset_type_of(file, source) {
                Some(asset_type) => if crate::coordinate::safe_segment(asset_type) {
                    Some(file.with("source"@, JsonValue::Text(asset_source(root, asset_type))))
                } else {
                    None
                },
                None => None,
            },
            None => None,
        },
    }
}

/// The rewrite of file records to `root`.
pub open spec fn file_rewrite(root: Seq<char>) -> spec_fn(JsonValue) -> Option<JsonValue> {
    |file: JsonValue| rewritten_file(file, root)
}

/// A version record whose reference at `field`, if it has one, is `root`. A null is no reference.
pub open spec fn with_reference(version: JsonValue, field: Seq<char>, root: Seq<char>) -> Option<
    JsonValue,
> {
    match version.get(field) {
        None => Some(version),
        Some(JsonValue::Null) => Some(version),
        Some(JsonValue::Text(_)) => Some(version.with(field, JsonValue::Text(root))),
        Some(_) => None,
    }
}

/// A version record whose files, if it has any, are under `root`.
pub open spec fn with_files(version: JsonValue, root: Seq<char>) -> Option<JsonValue> {
    match version.get("files"@) {
        None => Some(version),
        Some(_) => map_list(version, "files"@, file_rewrite(root)),
    }
}

/// Where the assets of a version record are served, if its coordinate may stand in a path.
pub open spec fn version_root(
    version: JsonValue,
    base_url: Seq<char>,
    repo_key: Seq<char>,
    publisher: Seq<char>,
    name: Seq<char>,
) -> Option<Seq<char>> {
    match version.text_at("version"@) {
        Some(version_name) => match crate::urls::version_asset_root(
            base_url,
            repo_key,
            publisher,
            name,
            version_name,
            crate::coordinate::platform_of(version.text_at("targetPlatform"@)),
        ) {
            Ok(root) => Some(root),
            Err(_) => None,
        },
        None => None,
    }
}

/// A version record whose asset references are all under its asset root.
pub open spec fn rewritten_version(
    version: JsonValue,
    base_url: Seq<char>,
    repo_key: Seq<char>,
    publisher: Seq<char>,
    name: Seq<char>,
) -> Option<JsonValue> {
    match version_root(version, base_url, repo_key, publisher, name) {
        Some(root) => match with_reference(version, "assetUri"@, root) {
            Some(version) => match with_reference(version, "fallbackAssetUri"@, root) {
                Some(version) => with_files(version, root),
                None => None,
            },
            None => None,
        },
        None => None,
    }
}

/// The rewrite of the version records of one extension.
pub open spec fn version_rewrite(
    base_url: Seq<char>,
    repo_key: Seq<char>,
    publisher: Seq<char>,
    name: Seq<char>,
) -> spec_fn(JsonValue) -> Option<JsonValue> {
    |version: JsonValue| rewritten_version(version, base_url, repo_key, publisher, name)
}

/// An extension record whose versions are rewritten.
pub open spec fn rewritten_extension(
    extension: JsonValue,
    base_url: Seq<char>,
    repo_key: Seq<char>,
) -> Option<JsonValue> {
    match identity_of(extension) {
        Some((publisher, name)) => map_list(
            extension,
            "versions"@,
            version_rewrite(base_url, repo_key, publisher, name),
        ),
        None => None,
    }
}

/// The rewrite of extension records.
pub open spec fn extension_rewrite(base_url: Seq<char>, repo_key: Seq<char>) -> spec_fn(
    JsonValue,
) -> Option<JsonValue> {
    |extension: JsonValue| rewritten_extension(extension, base_url, repo_key)
}

/// The rewrite of result records.
pub open spec fn result_rewrite(base_url: Seq<char>, repo_key: Seq<char>) -> spec_fn(
    JsonValue,
) -> Option<JsonValue> {
    |result: JsonValue| map_list(result, "extensions"@, extension_rewrite(base_url, repo_key))
}

/// A gallery document whose asset references are all under this server, where it has the
/// gallery's shape.
pub open spec fn rewritten_response(
    response: JsonValue,
    base_url: Seq<char>,
    repo_key: Seq<char>,
) -> Option<JsonValue> {
    map_list(response, "results"@, result_rewrite(base_url, repo_key))
}

/// The view of a document that may have been refused.
pub open spec fn json_or_error(json: Result<Json, GalleryError>) -> Result<
    JsonValue,
    GalleryError,
> {
    match json {
        Ok(json) => Ok(json@),
        Err(error) => Err(error),
    }
}

/// A rewrite, or the error for a document without the gallery's shape.
pub open spec fn or_invalid(json: Option<JsonValue>) -> Result<JsonValue, GalleryError> {
    match json {
        Some(json) => Ok(json),
        None => Err(GalleryError::InvalidResponse),
    }
}

/// How far a rewrite of `items` has come: the first of them are `done`.
spec fn mapped_so_far(
    items: Seq<JsonValue>,
    f: spec_fn(JsonValue) -> Option<JsonValue>,
    done: Seq<JsonValue>,
) -> bool {
    &&& done.len() <= items.len()
    &&& forall|i: int|
        #![trigger done[i]]
        #![trigger f(items[i])]
        0 <= i < done.len() ==> f(items[i]) == Some(done[i])
}

/// One item more is rewritten.
proof fn lemma_mapped_one(
    items: Seq<JsonValue>,
    f: spec_fn(JsonValue) -> Option<JsonValue>,
    done: Seq<JsonValue>,
    next: JsonValue,
)
    requires
        mapped_so_far(items, f, done),
        done.len() < items.len(),
        f(items[done.len() as int]) == Some(next),
    ensures
        mapped_so_far(items, f, done.push(next)),
{
}

/// All items are rewritten.
proof fn lemma_mapped_all(
    items: Seq<JsonValue>,
    f: spec_fn(JsonValue) -> Option<JsonValue>,
    done: Seq<JsonValue>,
)
    requires
        mapped_so_far(items, f, done),
        done.len() == items.len(),
    ensures
        map_all(items, f) == Some(done),
{
    assert forall|i: int| 0 <= i < items.len() implies (#[trigger] f(items[i])) is Some by {
        assert(f(items[i]) == Some(done[i]));
    }
    assert(map_all(items, f)->Some_0 =~= done);
}

/// The type of the asset that a file record refers to.
fn asset_type(file: &Json, source: &str) -> (found: Option<String>)
    ensures
        crate::error::text_opt(found) == asset_type_of(file@, source@),
{
    if let Some(named) = file.get_str("assetType") {
        if !is_empty(named) {
            return Some(named.to_string());
        }
    }
    let path = first_segment(source, '?');
    let tail = last_segment(path.as_str(), '/');
    if is_empty(tail.as_str()) {
        None
    } else {
        Some(tail)
    }
}

/// Puts a file record's source under `root`.
fn rewrite_file(file: Json, root: &str) -> (rewritten: Result<Json, GalleryError>)
    ensures
        json_or_error(rewritten) == or_invalid(rewritten_file(file@, root@)),
{
    let mut file = file;
    let mut source_url = root.to_string();
    match file.get("source") {
        None => return Ok(file),
        Some(source) => match source.as_str() {
            None => return Err(invalid_gallery_response()),
            Some(source) => match asset_type(&file, source) {
                None => return Err(invalid_gallery_response()),
                Some(asset_type) => {
                    validate_gallery_response_segment(asset_type.as_str())?;
                    source_url.append("/");
                    source_url.append(encode(asset_type.as_str()).as_str());
                },
            },
        },
    }
    file.insert("source", Json::Text(source_url));
    Ok(file)
}

/// Puts a version record's reference at `field` under `root`.
fn rewrite_reference(version: Json, field: &str, root: &str) -> (rewritten: Result<
    Json,
    GalleryError,
>)
    ensures
        json_or_error(rewritten) == or_invalid(with_reference(version@, field@, root@)),
{
    let mut version = version;
    match version.get(field) {
        None => return Ok(version),
        Some(Json::Null) => return Ok(version),
        Some(Json::Text(_)) => {},
        Some(_) => return Err(invalid_gallery_response()),
    }
    version.insert(field, Json::text(root));
    Ok(version)
}

/// Whether a rewritten list is the one `mapped` says, or refused where it says there is none.
spec fn all_or_invalid(
    rewritten: Result<Vec<Json>, GalleryError>,
    mapped: Option<Seq<JsonValue>>,
) -> bool {
    match rewritten {
        Ok(items) => mapped == Some(crate::json::json_views(items@)),
        Err(error) => mapped is None && error == GalleryError::InvalidResponse,
    }
}

/// Setting a member twice is setting it once.
pub proof fn lemma_set_twice(object: JsonValue, key: Seq<char>, first: JsonValue, second: JsonValue)
    ensures
        object.with(key, first).with(key, second) == object.with(key, second),
{
    if let JsonValue::Object(members) = object {
        assert(members.insert(key, first).insert(key, second) =~= members.insert(key, second));
    }
}

/// Puts the sources of file records under `root`.
fn rewrite_all_files(files: Vec<Json>, root: &str) -> (rewritten: Result<Vec<Json>, GalleryError>)
    ensures
        all_or_invalid(rewritten, map_all(crate::json::json_views(files@), file_rewrite(root@))),
{
    let ghost f = file_rewrite(root@);
    let ghost items = crate::json::json_views(files@);
    let mut done: Vec<Json> = Vec::new();
    for file in it: files
        invariant
            it.seq() == files@,
            f == file_rewrite(root@),
            items == crate::json::json_views(files@),
            done@.len() == it.index(),
            mapped_so_far(items, f, crate::json::json_views(done@)),
    {
        let ghost before = crate::json::json_views(done@);
        assert(items[it.index() as int] == file@);
        match rewrite_file(file, root) {
            Ok(next) => {
                proof {
                    lemma_mapped_one(items, f, before, next@);
                }
                done.push(next);
                assert(crate::json::json_views(done@) =~= before.push(next@));
            },
            Err(error) => {
                assert(f(items[it.index() as int]) is None);
                return Err(error);
            },
        }
    }
    proof {
        lemma_mapped_all(items, f, crate::json::json_views(done@));
    }
    Ok(done)
}

/// Puts a version record's files under `root`.
fn rewrite_files(version: Json, root: &str) -> (rewritten: Result<Json, GalleryError>)
    ensures
        json_or_error(rewritten) == or_invalid(with_files(version@, root@)),
{
    let ghost whole = version@;
    let mut version = version;
    if version.get("files").is_none() {
        return Ok(version);
    }
    let files = match version.take_list("files") {
        Some(files) => files,
        None => return Err(invalid_gallery_response()),
    };
    let done = rewrite_all_files(files, root)?;
    version.insert("files", Json::list(done));
    proof {
        lemma_set_twice(
            whole,
            "files"@,
            JsonValue::Null,
            JsonValue::List(crate::json::json_views(done@)),
        );
    }
    Ok(version)
}

/// Puts a version record's asset references under its asset root.
fn rewrite_version(
    version: Json,
    base_url: &RequestBaseUrl,
    repo_key: &str,
    publisher: &str,
    name: &str,
) -> (rewritten: Result<Json, GalleryError>)
    ensures
        json_or_error(rewritten) == or_invalid(
            rewritten_version(version@, base_url.0@, repo_key@, publisher@, name@),
        ),
{
    let root = match version.get_str("version") {
        Some(version_name) => {
            let platform = normal_target_platform(version.get_str("targetPlatform"));
            gallery_version_asset_base(
                base_url,
                repo_key,
                publisher,
                name,
                version_name,
                platform.as_str(),
            )?
        },
        None => return Err(invalid_gallery_response()),
    };
    let version = rewrite_reference(version, "assetUri", root.as_str())?;
    let version = rewrite_reference(version, "fallbackAssetUri", root.as_str())?;
    rewrite_files(version, root.as_str())
}

/// Puts the asset references of one extension's version records under this server.
fn rewrite_all_versions(
    versions: Vec<Json>,
    base_url: &RequestBaseUrl,
    repo_key: &str,
    publisher: &str,
    name: &str,
) -> (rewritten: Result<Vec<Json>, GalleryError>)
    ensures
        all_or_invalid(rewritten, map_all(crate::json::json_views(versions@), version_rewrite(base_url.0@, repo_key@, publisher@, name@))),
{
    let ghost f = version_rewrite(base_url.0@, repo_key@, publisher@, name@);
    let ghost items = crate::json::json_views(versions@);
    let mut done: Vec<Json> = Vec::new();
    for version in it: versions
        invariant
            it.seq() == versions@,
            f == version_rewrite(base_url.0@, repo_key@, publisher@, name@),
            items == crate::json::json_views(versions@),
            done@.len() == it.index(),
            mapped_so_far(items, f, crate::json::json_views(done@)),
    {
        let ghost before = crate::json::json_views(done@);
        assert(items[it.index() as int] == version@);
        match rewrite_version(version, base_url, repo_key, publisher, name) {
            Ok(next) => {
                proof {
                    lemma_mapped_one(items, f, before, next@);
                }
                done.push(next);
                assert(crate::json::json_views(done@) =~= before.push(next@));
            },
            Err(error) => {
                assert(f(items[it.index() as int]) is None);
                return Err(error);
            },
        }
    }
    proof {
        lemma_mapped_all(items, f, crate::json::json_views(done@));
    }
    Ok(done)
}

/// Puts an extension record's asset references under this server.
pub fn rewrite_extension(extension: Json, base_url: &RequestBaseUrl, repo_key: &str) -> (rewritten:
    Result<Json, GalleryError>)
    ensures
        json_or_error(rewritten) == or_invalid(
            rewritten_extension(extension@, base_url.0@, repo_key@),
        ),
{
    let ghost whole = extension@;
    let mut extension = extension;
    let (publisher, name, _) = match gallery_extension_identity(&extension) {
        Some(identity) => identity,
        None => return Err(invalid_gallery_response()),
    };
    let versions = match extension.take_list("versions") {
        Some(versions) => versions,
        None => return Err(invalid_gallery_response()),
    };
    let done = rewrite_all_versions(
        versions,
        base_url,
        repo_key,
        publisher.as_str(),
        name.as_str(),
    )?;
    extension.insert("versions", Json::list(done));
    proof {
        lemma_set_twice(
            whole,
            "versions"@,
            JsonValue::Null,
            JsonValue::List(crate::json::json_views(done@)),
        );
    }
    Ok(extension)
}

/// Puts the asset references of extension records under this server.
fn rewrite_all_extensions(
    extensions: Vec<Json>,
    base_url: &RequestBaseUrl,
    repo_key: &str,
) -> (rewritten: Result<Vec<Json>, GalleryError>)
    ensures
        all_or_invalid(rewritten, map_all(crate::json::json_views(extensions@), extension_rewrite(base_url.0@, repo_key@))),
{
    let ghost f = extension_rewrite(base_url.0@, repo_key@);
    let ghost items = crate::json::json_views(extensions@);
    let mut done: Vec<Json> = Vec::new();
    for extension in it: extensions
        invariant
            it.seq() == extensions@,
            f == extension_rewrite(base_url.0@, repo_key@),
            items == crate::json::json_views(extensions@),
            done@.len() == it.index(),
            mapped_so_far(items, f, crate::json::json_views(done@)),
    {
        let ghost before = crate::json::json_views(done@);
        assert(items[it.index() as int] == extension@);
        match rewrite_extension(extension, base_url, repo_key) {
            Ok(next) => {
                proof {
                    lemma_mapped_one(items, f, before, next@);
                }
                done.push(next);
                assert(crate::json::json_views(done@) =~= before.push(next@));
            },
            Err(error) => {
                assert(f(items[it.index() as int]) is None);
                return Err(error);
            },
        }
    }
    proof {
        lemma_mapped_all(items, f, crate::json::json_views(done@));
    }
    Ok(done)
}

/// Puts a result record's asset references under this server.
fn rewrite_result(result: Json, base_url: &RequestBaseUrl, repo_key: &str) -> (rewritten: Result<
    Json,
    GalleryError,
>)
    ensures
        json_or_error(rewritten) == or_invalid(result_rewrite(base_url.0@, repo_key@)(result@)),
{
    let ghost whole = result@;
    let mut result = result;
    let extensions = match result.take_list("extensions") {
        Some(extensions) => extensions,
        None => return Err(invalid_gallery_response()),
    };
    let done = rewrite_all_extensions(extensions, base_url, repo_key)?;
    result.insert("extensions", Json::list(done));
    proof {
        lemma_set_twice(
            whole,
            "extensions"@,
            JsonValue::Null,
            JsonValue::List(crate::json::json_views(done@)),
        );
    }
    Ok(result)
}

/// Puts the asset references of result records under this server.
fn rewrite_all_results(
    results: Vec<Json>,
    base_url: &RequestBaseUrl,
    repo_key: &str,
) -> (rewritten: Result<Vec<Json>, GalleryError>)
    ensures
        all_or_invalid(rewritten, map_all(crate::json::json_views(results@), result_rewrite(base_url.0@, repo_key@))),
{
    let ghost f = result_rewrite(base_url.0@, repo_key@);
    let ghost items = crate::json::json_views(results@);
    let mut done: Vec<Json> = Vec::new();
    for result in it: results
        invariant
            it.seq() == results@,
            f == result_rewrite(base_url.0@, repo_key@),
            items == crate::json::json_views(results@),
            done@.len() == it.index(),
            mapped_so_far(items, f, crate::json::json_views(done@)),
    {
        let ghost before = crate::json::json_views(done@);
        assert(items[it.index() as int] == result@);
        match rewrite_result(result, base_url, repo_key) {
            Ok(next) => {
                proof {
                    lemma_mapped_one(items, f, before, next@);
                }
                done.push(next);
                assert(crate::json::json_views(done@) =~= before.push(next@));
            },
            Err(error) => {
                assert(f(items[it.index() as int]) is None);
                return Err(error);
            },
        }
    }
    proof {
        lemma_mapped_all(items, f, crate::json::json_views(done@));
    }
    Ok(done)
}

/// Puts every asset reference of a gallery document under this server: `assetUri` and
/// `fallbackAssetUri` of each version, and the source of each file. A document without the
/// gallery's shape is refused whole.
pub fn rewrite_gallery_asset_urls(response: Json, base_url: &RequestBaseUrl, repo_key: &str) -> (
rewritten: Result<Json, GalleryError>)
    ensures
        json_or_error(rewritten) == or_invalid(
            rewritten_response(response@, base_url.0@, repo_key@),
        ),
{
    let ghost whole = response@;
    let mut response = response;
    let results = match response.take_list("results") {
        Some(results) => results,
        None => return Err(invalid_gallery_response()),
    };
    let done = rewrite_all_results(results, base_url, repo_key)?;
    response.insert("results", Json::list(done));
    proof {
        lemma_set_twice(
            whole,
            "results"@,
            JsonValue::Null,
            JsonValue::List(crate::json::json_views(done@)),
        );
    }
    Ok(response)
}

} // verus!
