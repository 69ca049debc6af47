//! The manifest by which a client finds a repository's gallery, and what the gallery can do.

use vstd::prelude::*;

use crate::json::{Json, JsonValue};
use crate::percent::encode;
use crate::repository::RequestBaseUrl;
use crate::text::trim_trailing;
use crate::urls::gallery_base_url;

verus! {

/// One resource of a manifest.
pub open spec fn resource(id: Seq<char>, kind: Seq<char>) -> JsonValue {
    crate::json::empty_object().with("id"@, JsonValue::Text(id)).with(
        "type"@,
        JsonValue::Text(kind),
    )
}

/// One resource of a manifest.
fn resource_json(id: String, kind: &str) -> (json: Json)
    ensures
        json@ == resource(id@, kind@),
{
    let mut json = Json::object();
    json.insert("id", Json::Text(id));
    json.insert("type", Json::text(kind));
    json
}

/// One thing that a gallery can do, and the number that stands for it in a query.
pub open spec fn capability(name: Seq<char>, value: u64) -> JsonValue {
    crate::json::empty_object().with("name"@, JsonValue::Text(name)).with(
        "value"@,
        crate::json::number(value),
    )
}

/// Adds one thing that a gallery can do.
fn add_capability(list: &mut Vec<Json>, name: &str, value: u64)
    ensures
        crate::json::json_views(final(list)@) == crate::json::json_views(old(list)@).push(
            capability(name@, value),
        ),
{
    let ghost held = crate::json::json_views(list@);
    let mut json = Json::object();
    json.insert("name", Json::text(name));
    json.insert("value", Json::unsigned(value));
    list.push(json);
    assert(crate::json::json_views(list@) =~= held.push(json@));
}

/// The criteria that a query may have.
pub open spec fn filtering() -> Seq<JsonValue> {
    Seq::empty().push(capability("Tag"@, 1)).push(capability("ExtensionId"@, 4)).push(
        capability("Category"@, 5),
    ).push(capability("ExtensionName"@, 7)).push(capability("Target"@, 8)).push(
        capability("Featured"@, 9),
    ).push(capability("SearchText"@, 10)).push(capability("ExcludeWithFlags"@, 12))
}

/// The orders that a query may ask for.
pub open spec fn sorting() -> Seq<JsonValue> {
    Seq::empty().push(capability("NoneOrRelevance"@, 0)).push(
        capability("LastUpdatedDate"@, 1),
    ).push(capability("Title"@, 2)).push(capability("PublisherName"@, 3)).push(
        capability("InstallCount"@, 4),
    ).push(capability("AverageRating"@, 6)).push(capability("PublishedDate"@, 10)).push(
        capability("WeightedRating"@, 12),
    )
}

/// The flags that a query may have.
pub open spec fn query_flags() -> Seq<JsonValue> {
    Seq::empty().push(capability("None"@, 0)).push(capability("IncludeVersions"@, 1)).push(
        capability("IncludeFiles"@, 2),
    ).push(capability("IncludeCategoryAndTags"@, 4)).push(
        capability("IncludeSharedAccounts"@, 8),
    ).push(capability("IncludeVersionProperties"@, 16)).push(
        capability("ExcludeNonValidated"@, 32),
    ).push(capability("IncludeInstallationTargets"@, 64)).push(
        capability("IncludeAssetUri"@, 128),
    ).push(capability("IncludeStatistics"@, 256)).push(
        capability("IncludeLatestVersionOnly"@, 512),
    ).push(capability("Unpublished"@, 4096)).push(
        capability("IncludeNameConflictInfo"@, 32768),
    ).push(capability("IncludeLatestPrereleaseAndStableVersionOnly"@, 65536))
}

/// Where a client asks extension queries.
pub open spec fn query_service(base_url: Seq<char>, repo_key: Seq<char>) -> Seq<char> {
    crate::urls::gallery_root(base_url, repo_key) + "/extensionquery"@
}

/// Where a client finds the latest version of an extension.
pub open spec fn latest_template(base_url: Seq<char>, repo_key: Seq<char>) -> Seq<char> {
    crate::urls::gallery_root(base_url, repo_key) + "/{publisher}/{name}/latest"@
}

/// Where a client shows an extension.
pub open spec fn item_template(base_url: Seq<char>, repo_key: Seq<char>) -> Seq<char> {
    crate::text::without_trailing(base_url, '/') + "/vscode/"@ + crate::percent::encoded(repo_key)
        + "/item?itemName={publisher}.{name}"@
}

/// The resources of a manifest.
pub open spec fn resources(base_url: Seq<char>, repo_key: Seq<char>) -> Seq<JsonValue> {
    Seq::empty().push(
        resource(query_service(base_url, repo_key), "ExtensionQueryService"@),
    ).push(
        resource(latest_template(base_url, repo_key), "ExtensionLatestVersionUriTemplate"@),
    ).push(resource(item_template(base_url, repo_key), "ExtensionDetailsViewUriTemplate"@))
}

/// The manifest of a repository's gallery.
pub open spec fn manifest(base_url: Seq<char>, repo_key: Seq<char>) -> JsonValue {
    let query = crate::json::empty_object().with("filtering"@, JsonValue::List(filtering())).with(
        "sorting"@,
        JsonValue::List(sorting()),
    ).with("flags"@, JsonValue::List(query_flags()));
    crate::json::empty_object().with("version"@, JsonValue::Text(""@)).with(
        "resources"@,
        JsonValue::List(resources(base_url, repo_key)),
    ).with("capabilities"@, crate::json::empty_object().with("extensionQuery"@, query))
}

/// The criteria, orders and flags that a query may have.
fn build_capabilities() -> (json: Json)
    ensures
        json@ == crate::json::empty_object().with("filtering"@, JsonValue::List(filtering())).with(
            "sorting"@,
            JsonValue::List(sorting()),
        ).with("flags"@, JsonValue::List(query_flags())),
{
    let mut filters: Vec<Json> = Vec::new();
    assert(crate::json::json_views(filters@) =~= Seq::<JsonValue>::empty());
    add_capability(&mut filters, "Tag", 1);
    add_capability(&mut filters, "ExtensionId", 4);
    add_capability(&mut filters, "Category", 5);
    add_capability(&mut filters, "ExtensionName", 7);
    add_capability(&mut filters, "Target", 8);
    add_capability(&mut filters, "Featured", 9);
    add_capability(&mut filters, "SearchText", 10);
    add_capability(&mut filters, "ExcludeWithFlags", 12);
    let mut orders: Vec<Json> = Vec::new();
    assert(crate::json::json_views(orders@) =~= Seq::<JsonValue>::empty());
    add_capability(&mut orders, "NoneOrRelevance", 0);
    add_capability(&mut orders, "LastUpdatedDate", 1);
    add_capability(&mut orders, "Title", 2);
    add_capability(&mut orders, "PublisherName", 3);
    add_capability(&mut orders, "InstallCount", 4);
    add_capability(&mut orders, "AverageRating", 6);
    add_capability(&mut orders, "PublishedDate", 10);
    add_capability(&mut orders, "WeightedRating", 12);
    let mut flags: Vec<Json> = Vec::new();
    assert(crate::json::json_views(flags@) =~= Seq::<JsonValue>::empty());
    add_capability(&mut flags, "None", 0);
    add_capability(&mut flags, "IncludeVersions", 1);
    add_capability(&mut flags, "IncludeFiles", 2);
    add_capability(&mut flags, "IncludeCategoryAndTags", 4);
    add_capability(&mut flags, "IncludeSharedAccounts", 8);
    add_capability(&mut flags, "IncludeVersionProperties", 16);
    add_capability(&mut flags, "ExcludeNonValidated", 32);
    add_capability(&mut flags, "IncludeInstallationTargets", 64);
    add_capability(&mut flags, "IncludeAssetUri", 128);
    add_capability(&mut flags, "IncludeStatistics", 256);
    add_capability(&mut flags, "IncludeLatestVersionOnly", 512);
    add_capability(&mut flags, "Unpublished", 4096);
    add_capability(&mut flags, "IncludeNameConflictInfo", 32768);
    add_capability(&mut flags, "IncludeLatestPrereleaseAndStableVersionOnly", 65536);
    let mut query = Json::object();
    query.insert("filtering", Json::list(filters));
    query.insert("sorting", Json::list(orders));
    query.insert("flags", Json::list(flags));
    query
}

/// The manifest of a repository's gallery.
pub fn build_gallery_manifest(base_url: &RequestBaseUrl, repo_key: &str) -> (json: Json)
    ensures
        json@ == manifest(base_url.0@, repo_key@),
{
    let mut service = gallery_base_url(base_url, repo_key);
    service.append("/extensionquery");
    let mut latest = gallery_base_url(base_url, repo_key);
    latest.append("/{publisher}/{name}/latest");
    let mut item = trim_trailing(base_url.as_str(), '/');
    item.append("/vscode/");
    item.append(encode(repo_key).as_str());
    item.append("/item?itemName={publisher}.{name}");
    let mut found: Vec<Json> = Vec::new();
    found.push(resource_json(service, "ExtensionQueryService"));
    found.push(resource_json(latest, "ExtensionLatestVersionUriTemplate"));
    found.push(resource_json(item, "ExtensionDetailsViewUriTemplate"));
    assert(crate::json::json_views(found@) =~= resources(base_url.0@, repo_key@));
    let mut capabilities = Json::object();
    capabilities.insert("extensionQuery", build_capabilities());
    let mut json = Json::object();
    json.insert("version", Json::text(""));
    json.insert("resources", Json::list(found));
    json.insert("capabilities", capabilities);
    json
}

/// Every resource of a manifest is under the server that the client reached, in the repository.
pub proof fn manifest_resources_lead_here(base_url: Seq<char>, repo_key: Seq<char>, i: int)
    requires
        0 <= i < 3,
    ensures
        ({
            let listed = manifest(base_url, repo_key).list_at("resources"@);
            let here = crate::text::without_trailing(base_url, '/') + "/vscode/"@
                + crate::percent::encoded(repo_key);
            &&& listed == Some(resources(base_url, repo_key))
            &&& match listed->Some_0[i].text_at("id"@) {
                Some(id) => here.is_prefix_of(id),
                None => false,
            }
        }),
{
    reveal_strlit("version");
    reveal_strlit("resources");
    reveal_strlit("capabilities");
    reveal_strlit("id");
    reveal_strlit("type");
    assert("version"@.len() == 7);
    assert("resources"@.len() == 9);
    assert("capabilities"@.len() == 12);
    assert("id"@.len() == 2);
    assert("type"@.len() == 4);
    let here = crate::text::without_trailing(base_url, '/') + "/vscode/"@
        + crate::percent::encoded(repo_key);
    let all = resources(base_url, repo_key);
    assert(all[0] == resource(query_service(base_url, repo_key), "ExtensionQueryService"@));
    assert(all[1] == resource(
        latest_template(base_url, repo_key),
        "ExtensionLatestVersionUriTemplate"@,
    ));
    assert(all[2] == resource(
        item_template(base_url, repo_key),
        "ExtensionDetailsViewUriTemplate"@,
    ));
    assert(here.is_prefix_of(query_service(base_url, repo_key)));
    assert(here.is_prefix_of(latest_template(base_url, repo_key)));
    assert(here.is_prefix_of(item_template(base_url, repo_key)));
}

} // verus!
