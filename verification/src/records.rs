//! Laws on the JSON records that are made here: what a client reads in each of them, member by
//! member.

use vstd::prelude::*;

use crate::error::GalleryError;
use crate::hosted::HostedArtifact;
use crate::json::JsonValue;
use crate::skeleton::SkeletonEntry;

verus! {

/// Whether a record is a file of the type `asset_type` under `root`, and says nothing else.
pub open spec fn lists_file(file: JsonValue, root: Seq<char>, asset_type: Seq<char>) -> bool {
    &&& file.get("assetType"@) == Some(JsonValue::Text(asset_type))
    &&& file.get("source"@) == Some(JsonValue::Text(root + "/"@ + asset_type))
    &&& forall|key: Seq<char>|
        key != "assetType"@ && key != "source"@ ==> #[trigger] file.get(key) is None
}

/// Whether a record is a property with the key `name` and the value `value`.
pub open spec fn lists_property(property: JsonValue, name: Seq<char>, value: Seq<char>) -> bool {
    &&& property.get("key"@) == Some(JsonValue::Text(name))
    &&& property.get("value"@) == Some(JsonValue::Text(value))
    &&& forall|key: Seq<char>|
        key != "key"@ && key != "value"@ ==> #[trigger] property.get(key) is None
}

/// A text of letters and dots is written as it is.
pub proof fn lemma_plain_segment(text: Seq<char>)
    requires
        forall|i: int|
            0 <= i < text.len() ==> ('A' <= #[trigger] text[i] <= 'Z' || 'a' <= text[i] <= 'z'
                || text[i] == '.'),
    ensures
        crate::percent::encoded(text) == text,
{
    assert(vstd::utf8::is_ascii_chars(text));
    vstd::utf8::is_ascii_chars_encode_utf8(text);
    let bytes = vstd::utf8::encode_utf8(text);
    assert(bytes.len() == text.len());
    assert forall|i: int| 0 <= i < bytes.len() implies crate::percent::unreserved(
        #[trigger] bytes[i],
    ) && bytes[i] as char == text[i] by {
        assert(bytes[i] == text[i] as u8);
    }
    lemma_kept_bytes(bytes);
    assert(crate::percent::encoded(text) =~= text);
}

proof fn lemma_kept_bytes(bytes: Seq<u8>)
    requires
        forall|i: int| 0 <= i < bytes.len() ==> crate::percent::unreserved(#[trigger] bytes[i]),
    ensures
        crate::percent::encoded_bytes(bytes).len() == bytes.len(),
        forall|i: int|
            0 <= i < bytes.len() ==> #[trigger] crate::percent::encoded_bytes(bytes)[i]
                == bytes[i] as char,
    decreases bytes.len(),
{
    if bytes.len() > 0 {
        let rest = bytes.drop_first();
        assert forall|i: int| 0 <= i < rest.len() implies crate::percent::unreserved(
            #[trigger] rest[i],
        ) by {
            assert(bytes[i + 1] == rest[i]);
        }
        lemma_kept_bytes(rest);
        assert(crate::percent::unreserved(bytes[0]));
        let whole = crate::percent::encoded_bytes(bytes);
        assert(whole =~= seq![bytes[0] as char] + crate::percent::encoded_bytes(rest));
        assert forall|i: int| 0 <= i < bytes.len() implies #[trigger] whole[i]
            == bytes[i] as char by {
            if i > 0 {
                assert(crate::percent::encoded_bytes(rest)[i - 1] == rest[i - 1] as char);
            }
        }
    }
}

proof fn lemma_file(root: Seq<char>, asset_type: Seq<char>)
    requires
        crate::percent::encoded(asset_type) == asset_type,
    ensures
        lists_file(crate::skeleton::file_value(root, asset_type), root, asset_type),
{
    reveal_strlit("assetType");
    reveal_strlit("source");
    assert("assetType"@.len() == 9);
    assert("source"@.len() == 6);
}

/// Whether a record lists the four files of a build, in their order and each under its root, where
/// the flags ask for files; and none where they do not.
pub open spec fn lists_files(record: JsonValue, root: Seq<char>, flags: u32) -> bool {
    if flags & 2u32 == 0 {
        record.get("files"@) is None
    } else {
        match record.list_at("files"@) {
            Some(files) => {
                &&& files.len() == 4
                &&& lists_file(files[0], root, "Microsoft.VisualStudio.Services.VSIXPackage"@)
                &&& lists_file(files[1], root, "Microsoft.VisualStudio.Code.Manifest"@)
                &&& lists_file(files[2], root, "Microsoft.VisualStudio.Services.Content.Details"@)
                &&& lists_file(files[3], root, "Microsoft.VisualStudio.Services.Icons.Default"@)
            },
            None => false,
        }
    }
}

/// A built version can be installed: where the flags ask for files it lists the package, the
/// manifest, the description and the icon, each once, in that order, and each under the root of
/// its build; where they do not, it lists none.
pub proof fn built_versions_can_be_installed(entry: SkeletonEntry, root: Seq<char>, flags: u32)
    ensures
        lists_files(crate::skeleton::built_version(entry, root, flags), root, flags),
{
    lemma_record_keys();
    reveal_strlit("Microsoft.VisualStudio.Services.VSIXPackage");
    reveal_strlit("Microsoft.VisualStudio.Code.Manifest");
    reveal_strlit("Microsoft.VisualStudio.Services.Content.Details");
    reveal_strlit("Microsoft.VisualStudio.Services.Icons.Default");
    lemma_plain_segment("Microsoft.VisualStudio.Services.VSIXPackage"@);
    lemma_plain_segment("Microsoft.VisualStudio.Code.Manifest"@);
    lemma_plain_segment("Microsoft.VisualStudio.Services.Content.Details"@);
    lemma_plain_segment("Microsoft.VisualStudio.Services.Icons.Default"@);
    lemma_file(root, "Microsoft.VisualStudio.Services.VSIXPackage"@);
    lemma_file(root, "Microsoft.VisualStudio.Code.Manifest"@);
    lemma_file(root, "Microsoft.VisualStudio.Services.Content.Details"@);
    lemma_file(root, "Microsoft.VisualStudio.Services.Icons.Default"@);
    let record = crate::skeleton::built_version(entry, root, flags);
    if flags & 2u32 != 0 {
        assert(record.list_at("files"@) == Some(crate::skeleton::built_files(root)));
    }
}

/// The keys of a version record are different.
proof fn lemma_record_keys()
    ensures
        "version"@.len() == 7,
        "properties"@.len() == 10,
        "targetPlatform"@.len() == 14,
        "lastUpdated"@.len() == 11,
        "assetUri"@.len() == 8,
        "fallbackAssetUri"@.len() == 16,
        "files"@.len() == 5,
{
    reveal_strlit("version");
    reveal_strlit("properties");
    reveal_strlit("targetPlatform");
    reveal_strlit("lastUpdated");
    reveal_strlit("assetUri");
    reveal_strlit("fallbackAssetUri");
    reveal_strlit("files");
}

/// A built version says of its version what the history says, and no more: its name; its platform,
/// unless it is for all of them; its date, where it has one; and its asset root, twice, where the
/// flags ask for it.
pub proof fn built_versions_say_what_the_history_says(
    entry: SkeletonEntry,
    root: Seq<char>,
    flags: u32,
)
    ensures
        ({
            let record = crate::skeleton::built_version(entry, root, flags);
            &&& record.get("version"@) == Some(JsonValue::Text(entry.version))
            &&& record.get("targetPlatform"@) == (if entry.target_platform == "universal"@ {
                None::<JsonValue>
            } else {
                Some(JsonValue::Text(entry.target_platform))
            })
            &&& match entry.last_updated {
                Some((seconds, nanos)) => record.get("lastUpdated"@) == Some(
                    JsonValue::Text(crate::time::instant_text(seconds, nanos)),
                ),
                None => record.get("lastUpdated"@) is None,
            }
            &&& record.get("assetUri"@) == (if flags & 128u32 != 0 {
                Some(JsonValue::Text(root))
            } else {
                None
            })
            &&& record.get("fallbackAssetUri"@) == record.get("assetUri"@)
            &&& forall|key: Seq<char>|
                key != "version"@ && key != "properties"@ && key != "targetPlatform"@ && key
                    != "lastUpdated"@ && key != "assetUri"@ && key != "fallbackAssetUri"@ && key
                    != "files"@ ==> #[trigger] record.get(key) is None
        }),
{
    lemma_record_keys();
}

/// A built version has the property of a pre-release exactly where it is one, and the engine that
/// it is for exactly where it has one, and no other property.
pub proof fn built_versions_keep_channel_and_engine(
    entry: SkeletonEntry,
    root: Seq<char>,
    flags: u32,
)
    ensures
        match crate::skeleton::built_version(entry, root, flags).list_at("properties"@) {
            Some(properties) => {
                &&& properties.len() == (if entry.prerelease {
                    1int
                } else {
                    0
                }) + (if entry.engine is Some {
                    1int
                } else {
                    0
                })
                &&& entry.prerelease ==> lists_property(
                    properties[0],
                    "Microsoft.VisualStudio.Code.PreRelease"@,
                    "true"@,
                )
                &&& entry.engine is Some ==> lists_property(
                    properties.last(),
                    "Microsoft.VisualStudio.Code.Engine"@,
                    entry.engine->Some_0,
                )
            },
            None => false,
        },
{
    lemma_record_keys();
    reveal_strlit("key");
    reveal_strlit("value");
    assert("key"@.len() == 3);
    assert("value"@.len() == 5);
    let record = crate::skeleton::built_version(entry, root, flags);
    assert(record.list_at("properties"@) == Some(crate::skeleton::entry_properties(entry)));
}

/// Whether a list of metadata records says that there are `total` extensions, and nothing else.
pub open spec fn counts_total(metadata: JsonValue, total: nat) -> bool {
    match metadata {
        JsonValue::List(entries) => {
            &&& entries.len() == 1
            &&& entries[0].text_at("metadataType"@) == Some("ResultCount"@)
            &&& match entries[0].list_at("metadataItems"@) {
                Some(items) => {
                    &&& items.len() == 1
                    &&& items[0].text_at("name"@) == Some("TotalCount"@)
                    &&& items[0].get("count"@) == Some(
                        JsonValue::Number(crate::json::unsigned_number(total as u64)),
                    )
                },
                None => false,
            }
        },
        _ => false,
    }
}

proof fn lemma_count_keys()
    ensures
        "metadataType"@.len() == 12,
        "metadataItems"@.len() == 13,
        "name"@.len() == 4,
        "count"@.len() == 5,
        "extensions"@.len() == 10,
        "resultMetadata"@.len() == 14,
        "results"@.len() == 7,
{
    reveal_strlit("metadataType");
    reveal_strlit("metadataItems");
    reveal_strlit("name");
    reveal_strlit("count");
    reveal_strlit("extensions");
    reveal_strlit("resultMetadata");
    reveal_strlit("results");
}

/// A document that wraps extension records has one result, with exactly these records in this
/// order. Its metadata is the one given, or else counts the records.
pub proof fn envelopes_hold_every_record(
    extensions: Seq<JsonValue>,
    result_metadata: Option<JsonValue>,
)
    ensures
        ({
            let document = crate::envelope::enveloped(extensions, result_metadata);
            &&& forall|key: Seq<char>|
                key != "results"@ ==> #[trigger] document.get(key) is None
            &&& match document.list_at("results"@) {
                Some(results) => {
                    &&& results.len() == 1
                    &&& results[0].get("extensions"@) == Some(JsonValue::List(extensions))
                    &&& match result_metadata {
                        Some(metadata) => results[0].get("resultMetadata"@) == Some(metadata),
                        None => match results[0].get("resultMetadata"@) {
                            Some(metadata) => counts_total(metadata, extensions.len()),
                            None => false,
                        },
                    }
                },
                None => false,
            }
        }),
{
    lemma_count_keys();
    let document = crate::envelope::enveloped(extensions, result_metadata);
    let result = document.list_at("results"@)->Some_0[0];
    if result_metadata is None {
        let metadata = crate::envelope::count_metadata(extensions.len());
        assert(result.get("resultMetadata"@) == Some(metadata));
        assert(counts_total(metadata, extensions.len()));
    }
}

/// Whether a record is the one of an extension with one version.
pub open spec fn lists_package(
    record: JsonValue,
    publisher: Seq<char>,
    name: Seq<char>,
    version: Seq<char>,
    url: Seq<char>,
) -> bool {
    &&& record.get("extensionName"@) == Some(JsonValue::Text(name))
    &&& match record.get("publisher"@) {
        Some(owner) => owner.get("publisherName"@) == Some(JsonValue::Text(publisher)),
        None => false,
    }
    &&& match record.list_at("versions"@) {
        Some(versions) => {
            &&& versions.len() == 1
            &&& versions[0].get("version"@) == Some(JsonValue::Text(version))
            &&& versions[0].get("assetUri"@) == Some(JsonValue::Text(url))
            &&& forall|key: Seq<char>|
                key != "version"@ && key != "assetUri"@ ==> #[trigger] versions[0].get(key) is None
        },
        None => false,
    }
    &&& forall|key: Seq<char>|
        key != "extensionName"@ && key != "publisher"@ && key != "versions"@
            ==> #[trigger] record.get(key) is None
}

/// The text at a key of the metadata that a package is stored with, or else another.
pub open spec fn stored_text(
    artifact: HostedArtifact,
    key: Seq<char>,
    otherwise: Seq<char>,
) -> Seq<char> {
    match artifact.metadata {
        Some(metadata) => match metadata@.get(key) {
            Some(JsonValue::Text(text)) => text,
            _ => otherwise,
        },
        None => otherwise,
    }
}

/// Whether a listing has one result, with a record for every stored package in their order, and
/// counts them all.
pub open spec fn lists_all(
    listing: JsonValue,
    repo_key: Seq<char>,
    artifacts: Seq<HostedArtifact>,
) -> bool {
    match listing.list_at("results"@) {
        Some(results) => {
            &&& results.len() == 1
            &&& match results[0].get("resultMetadata"@) {
                Some(metadata) => counts_total(metadata, artifacts.len()),
                None => false,
            }
            &&& match results[0].list_at("extensions"@) {
                Some(records) => {
                    &&& records.len() == artifacts.len()
                    &&& forall|i: int|
                        0 <= i < artifacts.len() ==> {
                            let artifact = artifacts[i];
                            let publisher = stored_text(artifact, "publisher"@, "unknown"@);
                            let name = stored_text(artifact, "extension_name"@, artifact.name@);
                            let version = match artifact.version {
                                Some(version) => version@,
                                None => Seq::empty(),
                            };
                            lists_package(
                                #[trigger] records[i],
                                publisher,
                                name,
                                version,
                                "/vscode/"@ + repo_key + "/extensions/"@ + publisher + "/"@ + name
                                    + "/"@ + version + "/download"@,
                            )
                        }
                },
                None => false,
            }
        },
        None => false,
    }
}

/// A listing has a record for every stored package, in their order, and counts them all. Each
/// record has the publisher and name that the package was stored with, its version, and the URL
/// that they make.
pub proof fn listings_hold_every_package(repo_key: Seq<char>, artifacts: Seq<HostedArtifact>)
    ensures
        lists_all(
            crate::envelope::enveloped(crate::hosted::hosted_records(repo_key, artifacts), None),
            repo_key,
            artifacts,
        ),
{
    let records = crate::hosted::hosted_records(repo_key, artifacts);
    envelopes_hold_every_record(records, None);
    reveal_strlit("publisher");
    reveal_strlit("extensionName");
    reveal_strlit("versions");
    reveal_strlit("version");
    reveal_strlit("assetUri");
    assert("publisher"@.len() == 9);
    assert("extensionName"@.len() == 13);
    assert("versions"@.len() == 8);
    assert("version"@.len() == 7);
    assert("assetUri"@.len() == 8);
    assert forall|i: int| 0 <= i < artifacts.len() implies {
        let artifact = artifacts[i];
        let publisher = stored_text(artifact, "publisher"@, "unknown"@);
        let name = stored_text(artifact, "extension_name"@, artifact.name@);
        let version = match artifact.version {
            Some(version) => version@,
            None => Seq::empty(),
        };
        lists_package(
            #[trigger] records[i],
            publisher,
            name,
            version,
            "/vscode/"@ + repo_key + "/extensions/"@ + publisher + "/"@ + name + "/"@ + version
                + "/download"@,
        )
    } by {
        let artifact = artifacts[i];
        let record = records[i];
        assert(record == crate::hosted::hosted_record(repo_key, artifact));
        assert(crate::hosted::hosted_publisher(artifact) == stored_text(
            artifact,
            "publisher"@,
            "unknown"@,
        ));
        assert(crate::hosted::hosted_name(artifact) == stored_text(
            artifact,
            "extension_name"@,
            artifact.name@,
        ));
        assert(record.get("publisher"@) is Some);
        assert(record.list_at("versions"@) is Some);
    }
}

/// The record of a latest hosted package has its six members, and no more.
pub proof fn latest_records_describe_the_package(
    repo_key: Seq<char>,
    publisher: Seq<char>,
    name: Seq<char>,
    version: Seq<char>,
    checksum: Seq<char>,
    size: i64,
)
    ensures
        ({
            let record = crate::hosted::latest_record(
                repo_key,
                publisher,
                name,
                version,
                checksum,
                size,
            );
            &&& record.get("publisher"@) == Some(JsonValue::Text(publisher))
            &&& record.get("name"@) == Some(JsonValue::Text(name))
            &&& record.get("version"@) == Some(JsonValue::Text(version))
            &&& record.get("sha256"@) == Some(JsonValue::Text(checksum))
            &&& record.get("size"@) == Some(
                JsonValue::Number(crate::json::signed_number(size)),
            )
            &&& record.get("downloadUrl"@) == Some(
                JsonValue::Text(
                    "/vscode/"@ + repo_key + "/extensions/"@ + publisher + "/"@ + name + "/"@
                        + version + "/download"@,
                ),
            )
            &&& forall|key: Seq<char>|
                key != "publisher"@ && key != "name"@ && key != "version"@ && key != "sha256"@
                    && key != "size"@ && key != "downloadUrl"@ ==> #[trigger] record.get(
                    key,
                ) is None
        }),
{
    reveal_strlit("publisher");
    reveal_strlit("name");
    reveal_strlit("version");
    reveal_strlit("sha256");
    reveal_strlit("size");
    reveal_strlit("downloadUrl");
    assert("publisher"@.len() == 9);
    assert("name"@.len() == 4);
    assert("version"@.len() == 7);
    assert("sha256"@.len() == 6);
    assert("size"@.len() == 4);
    assert("downloadUrl"@.len() == 11);
    assert("name"@[0] != "size"@[0]);
}

/// A published package is stored and answered under the publisher, name and version it was
/// published with.
pub proof fn publishing_keeps_what_was_published(
    publisher: Seq<char>,
    name: Seq<char>,
    version: Seq<char>,
)
    ensures
        ({
            let metadata = crate::hosted::package_metadata(publisher, name, version);
            &&& metadata.get("publisher"@) == Some(JsonValue::Text(publisher))
            &&& metadata.get("extension_name"@) == Some(JsonValue::Text(name))
            &&& metadata.get("version"@) == Some(JsonValue::Text(version))
            &&& metadata.get("filename"@) == Some(
                JsonValue::Text(publisher + "."@ + name + "-"@ + version + ".vsix"@),
            )
            &&& forall|key: Seq<char>|
                key != "publisher"@ && key != "extension_name"@ && key != "version"@ && key
                    != "filename"@ ==> #[trigger] metadata.get(key) is None
        }),
        ({
            let answer = crate::hosted::publish_answer(publisher, name, version);
            &&& answer.get("publisher"@) == Some(JsonValue::Text(publisher))
            &&& answer.get("name"@) == Some(JsonValue::Text(name))
            &&& answer.get("version"@) == Some(JsonValue::Text(version))
            &&& answer.get("message"@) == Some(
                JsonValue::Text("Successfully published extension"@),
            )
            &&& forall|key: Seq<char>|
                key != "publisher"@ && key != "name"@ && key != "version"@ && key != "message"@
                    ==> #[trigger] answer.get(key) is None
        }),
{
    reveal_strlit("publisher");
    reveal_strlit("extension_name");
    reveal_strlit("name");
    reveal_strlit("version");
    reveal_strlit("filename");
    reveal_strlit("message");
    assert("publisher"@.len() == 9);
    assert("extension_name"@.len() == 14);
    assert("name"@.len() == 4);
    assert("version"@.len() == 7);
    assert("filename"@.len() == 8);
    assert("message"@.len() == 7);
    assert("version"@[0] != "message"@[0]);
}

/// Whether a record is the criterion of a filter type and a value.
pub open spec fn states_criterion(record: JsonValue, criterion: (u64, Seq<char>)) -> bool {
    &&& record.get("filterType"@) == Some(
        JsonValue::Number(crate::json::unsigned_number(criterion.0)),
    )
    &&& record.get("value"@) == Some(JsonValue::Text(criterion.1))
    &&& forall|key: Seq<char>|
        key != "filterType"@ && key != "value"@ ==> #[trigger] record.get(key) is None
}

/// The query for one extension has one filter, for the first page of one, with the identity first
/// and then every qualifier in its order, and the flags given.
pub proof fn single_queries_repeat_every_qualifier(
    identity: (u64, Seq<char>),
    qualifiers: Seq<(u64, Seq<char>)>,
    flags: u32,
)
    ensures
        ({
            let query = crate::query::single_id_query(identity, qualifiers, flags);
            let one = JsonValue::Number(crate::json::unsigned_number(1));
            let zero = JsonValue::Number(crate::json::unsigned_number(0));
            &&& query.get("flags"@) == Some(
                JsonValue::Number(crate::json::unsigned_number(flags as u64)),
            )
            &&& forall|key: Seq<char>|
                key != "flags"@ && key != "filters"@ ==> #[trigger] query.get(key) is None
            &&& match query.list_at("filters"@) {
                Some(filters) => {
                    &&& filters.len() == 1
                    &&& filters[0].get("pageNumber"@) == Some(one)
                    &&& filters[0].get("pageSize"@) == Some(one)
                    &&& filters[0].get("sortBy"@) == Some(zero)
                    &&& filters[0].get("sortOrder"@) == Some(zero)
                    &&& match filters[0].list_at("criteria"@) {
                        Some(criteria) => {
                            &&& criteria.len() == qualifiers.len() + 1
                            &&& states_criterion(criteria[0], identity)
                            &&& forall|i: int|
                                0 <= i < qualifiers.len() ==> states_criterion(
                                    criteria[i + 1],
                                    #[trigger] qualifiers[i],
                                )
                        },
                        None => false,
                    }
                },
                None => false,
            }
        }),
{
    reveal_strlit("filterType");
    reveal_strlit("value");
    reveal_strlit("criteria");
    reveal_strlit("pageNumber");
    reveal_strlit("pageSize");
    reveal_strlit("sortBy");
    reveal_strlit("sortOrder");
    reveal_strlit("filters");
    reveal_strlit("flags");
    assert("filterType"@.len() == 10);
    assert("value"@.len() == 5);
    assert("criteria"@.len() == 8);
    assert("pageNumber"@.len() == 10);
    assert("pageSize"@.len() == 8);
    assert("sortBy"@.len() == 6);
    assert("sortOrder"@.len() == 9);
    assert("filters"@.len() == 7);
    assert("flags"@.len() == 5);
    assert("criteria"@[0] != "pageSize"@[0]);
    let query = crate::query::single_id_query(identity, qualifiers, flags);
    assert(query.list_at("filters"@) is Some);
    let filter = query.list_at("filters"@)->Some_0[0];
    assert(filter.list_at("criteria"@) is Some);
    let criteria = filter.list_at("criteria"@)->Some_0;
    assert(criteria[0] == crate::query::criterion_value(identity));
    assert forall|i: int| 0 <= i < qualifiers.len() implies states_criterion(
        criteria[i + 1],
        #[trigger] qualifiers[i],
    ) by {
        assert(criteria[i + 1] == crate::query::criterion_value(qualifiers[i]));
    }
}

/// Whether a record is a resource with an address and a type.
pub open spec fn offers(resource: JsonValue, id: Seq<char>, kind: Seq<char>) -> bool {
    resource.get("id"@) == Some(JsonValue::Text(id)) && resource.get("type"@) == Some(
        JsonValue::Text(kind),
    )
}

/// A manifest names exactly three resources: where queries are asked, where a latest version is
/// found, and where an extension is shown, each under the repository on this server.
pub proof fn manifests_name_three_resources(base_url: Seq<char>, repo_key: Seq<char>)
    ensures
        ({
            let here = crate::text::without_trailing(base_url, '/') + "/vscode/"@
                + crate::percent::encoded(repo_key);
            match crate::manifest::manifest(base_url, repo_key).list_at("resources"@) {
                Some(resources) => {
                    &&& resources.len() == 3
                    &&& offers(
                        resources[0],
                        here + "/gallery"@ + "/extensionquery"@,
                        "ExtensionQueryService"@,
                    )
                    &&& offers(
                        resources[1],
                        here + "/gallery"@ + "/{publisher}/{name}/latest"@,
                        "ExtensionLatestVersionUriTemplate"@,
                    )
                    &&& offers(
                        resources[2],
                        here + "/item?itemName={publisher}.{name}"@,
                        "ExtensionDetailsViewUriTemplate"@,
                    )
                },
                None => false,
            }
        }),
{
    reveal_strlit("id");
    reveal_strlit("type");
    reveal_strlit("version");
    reveal_strlit("resources");
    reveal_strlit("capabilities");
    assert("id"@.len() == 2);
    assert("type"@.len() == 4);
    assert("version"@.len() == 7);
    assert("resources"@.len() == 9);
    assert("capabilities"@.len() == 12);
    let manifest = crate::manifest::manifest(base_url, repo_key);
    assert(manifest.list_at("resources"@) == Some(
        crate::manifest::resources(base_url, repo_key),
    ));
}

/// Whether a list holds a capability for each name and number, and no more.
pub open spec fn offers_each(list: Seq<JsonValue>, offered: Seq<(Seq<char>, u64)>) -> bool {
    &&& list.len() == offered.len()
    &&& forall|i: int|
        0 <= i < offered.len() ==> {
            &&& (#[trigger] list[i]).get("name"@) == Some(JsonValue::Text(offered[i].0))
            &&& list[i].get("value"@) == Some(
                JsonValue::Number(crate::json::unsigned_number(offered[i].1)),
            )
            &&& forall|key: Seq<char>|
                key != "name"@ && key != "value"@ ==> #[trigger] list[i].get(key) is None
        }
}

/// A manifest says, whatever the server and the repository, by which number a query asks for each
/// criterion, each order and each detail.
pub proof fn manifests_say_what_queries_may_hold(base_url: Seq<char>, repo_key: Seq<char>)
    ensures
        ({
            let manifest = crate::manifest::manifest(base_url, repo_key);
            &&& match manifest.get("version"@) {
                Some(JsonValue::Text(version)) => version.len() == 0,
                _ => false,
            }
            &&& forall|key: Seq<char>|
                key != "version"@ && key != "resources"@ && key != "capabilities"@
                    ==> #[trigger] manifest.get(key) is None
            &&& match manifest.get("capabilities"@) {
                Some(capabilities) => match capabilities.get("extensionQuery"@) {
                    Some(query) => match (
                        query.list_at("filtering"@),
                        query.list_at("sorting"@),
                        query.list_at("flags"@),
                    ) {
                        (Some(filtering), Some(sorting), Some(flags)) => {
                            &&& offers_each(
                                filtering,
                                seq![
                                    ("Tag"@, 1),
                                    ("ExtensionId"@, 4),
                                    ("Category"@, 5),
                                    ("ExtensionName"@, 7),
                                    ("Target"@, 8),
                                    ("Featured"@, 9),
                                    ("SearchText"@, 10),
                                    ("ExcludeWithFlags"@, 12),
                                ],
                            )
                            &&& offers_each(
                                sorting,
                                seq![
                                    ("NoneOrRelevance"@, 0),
                                    ("LastUpdatedDate"@, 1),
                                    ("Title"@, 2),
                                    ("PublisherName"@, 3),
                                    ("InstallCount"@, 4),
                                    ("AverageRating"@, 6),
                                    ("PublishedDate"@, 10),
                                    ("WeightedRating"@, 12),
                                ],
                            )
                            &&& offers_each(
                                flags,
                                seq![
                                    ("None"@, 0),
                                    ("IncludeVersions"@, 1),
                                    ("IncludeFiles"@, 2),
                                    ("IncludeCategoryAndTags"@, 4),
                                    ("IncludeSharedAccounts"@, 8),
                                    ("IncludeVersionProperties"@, 16),
                                    ("ExcludeNonValidated"@, 32),
                                    ("IncludeInstallationTargets"@, 64),
                                    ("IncludeAssetUri"@, 128),
                                    ("IncludeStatistics"@, 256),
                                    ("IncludeLatestVersionOnly"@, 512),
                                    ("Unpublished"@, 4096),
                                    ("IncludeNameConflictInfo"@, 32768),
                                    ("IncludeLatestPrereleaseAndStableVersionOnly"@, 65536),
                                ],
                            )
                        },
                        _ => false,
                    },
                    None => false,
                },
                None => false,
            }
        }),
{
    reveal_strlit("version");
    reveal_strlit("resources");
    reveal_strlit("capabilities");
    reveal_strlit("filtering");
    reveal_strlit("sorting");
    reveal_strlit("flags");
    reveal_strlit("name");
    reveal_strlit("value");
    reveal_strlit("");
    assert("version"@.len() == 7);
    assert("resources"@.len() == 9);
    assert("capabilities"@.len() == 12);
    assert("filtering"@.len() == 9);
    assert("sorting"@.len() == 7);
    assert("flags"@.len() == 5);
    assert("name"@.len() == 4);
    assert("value"@.len() == 5);
    let manifest = crate::manifest::manifest(base_url, repo_key);
    let query = manifest.get("capabilities"@)->Some_0.get("extensionQuery"@)->Some_0;
    assert(query.list_at("filtering"@) == Some(crate::manifest::filtering()));
    assert(query.list_at("sorting"@) == Some(crate::manifest::sorting()));
    assert(query.list_at("flags"@) == Some(crate::manifest::query_flags()));
}

/// A member that is set is read back, and no other is touched; a member that was never set is not
/// there, and only objects have members. A text and a list are read only where they are such, and
/// the first of a list is its first item.
pub proof fn members_are_read_back(
    object: JsonValue,
    key: Seq<char>,
    other: Seq<char>,
    value: JsonValue,
)
    ensures
        object is Object ==> object.with(key, value).get(key) == Some(value),
        other != key ==> object.with(key, value).get(other) == object.get(other),
        !(object is Object) ==> object.get(key) is None && object.with(key, value) == object,
        crate::json::empty_object().get(key) is None,
        object.text_at(key) is Some <==> object.get(key) == Some(
            JsonValue::Text(object.text_at(key)->Some_0),
        ),
        object.list_at(key) is Some <==> object.get(key) == Some(
            JsonValue::List(object.list_at(key)->Some_0),
        ),
        match object {
            JsonValue::List(items) => {
                &&& items.len() == 0 ==> object.first() is None
                &&& items.len() > 0 ==> object.first() == Some(items[0])
            },
            _ => object.first() == object.get("0"@),
        },
{
}

/// The first extension of a document is the first of its first result, and its metadata that of
/// its first result; a document without results has neither.
pub proof fn firsts_are_those_of_the_first_result(document: JsonValue)
    ensures
        match document.list_at("results"@) {
            Some(results) => if results.len() == 0 {
                &&& crate::envelope::first_extension(document) is None
                &&& crate::envelope::first_metadata(document) is None
            } else {
                &&& crate::envelope::first_metadata(document) == results[0].get("resultMetadata"@)
                &&& match results[0].list_at("extensions"@) {
                    Some(extensions) => {
                        &&& extensions.len() == 0 ==> crate::envelope::first_extension(
                            document,
                        ) is None
                        &&& extensions.len() > 0 ==> crate::envelope::first_extension(document)
                            == Some(extensions[0])
                    },
                    None => true,
                }
            },
            None => true,
        },
        document.get("results"@) is None ==> crate::envelope::first_extension(document) is None
            && crate::envelope::first_metadata(document) is None,
{
}

/// A package is published exactly where it has bytes and the request says whose it is, what it is
/// called and which version it is; the first of these that is missing is what is answered.
pub proof fn publications_are_whole(
    body: Seq<u8>,
    publisher: Option<Seq<char>>,
    name: Option<Seq<char>>,
    version: Option<Seq<char>>,
)
    ensures
        ({
            let refused = crate::hosted::publish_error(body, publisher, name, version);
            let empty = body.len() == 0;
            &&& refused is None <==> !empty && publisher is Some && name is Some && version is Some
            &&& refused == Some(GalleryError::EmptyPackage) <==> empty
            &&& refused == Some(GalleryError::MissingPublisher) <==> !empty && publisher is None
            &&& refused == Some(GalleryError::MissingExtensionName) <==> !empty && publisher is Some
                && name is None
            &&& refused == Some(GalleryError::MissingExtensionVersion) <==> !empty && publisher
                is Some && name is Some && version is None
        }),
{
}

/// The age gate is asked about a record exactly where it says a publisher and a name that may stand
/// in a path, and lists versions that all have a coordinate; it knows the record by publisher, dot
/// and name in small letters.
pub proof fn gated_records_are_known_by_name(extension: JsonValue)
    ensures
        crate::gate::gateable(extension) <==> {
            &&& crate::response::identity_of(extension) is Some
            &&& extension.list_at("versions"@) is Some
            &&& forall|i: int|
                0 <= i < extension.list_at("versions"@)->Some_0.len()
                    ==> crate::response::version_coordinate(
                    #[trigger] extension.list_at("versions"@)->Some_0[i],
                ) is Some
        },
        match crate::response::identity_of(extension) {
            Some((publisher, name)) => crate::gate::package_at(extension) == crate::text::lowered(
                publisher + seq!['.'] + name,
            ),
            None => true,
        },
{
    reveal_strlit(".");
    assert("."@ =~= seq!['.']);
}

} // verus!
