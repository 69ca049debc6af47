//! What a rewritten gallery document promises: no asset reference leads off this server, and
//! nothing else has changed.

use vstd::prelude::*;

use crate::json::JsonValue;

verus! {

/// Whether a reference is absent, null, or `root`.
pub open spec fn reference_under(version: JsonValue, field: Seq<char>, root: Seq<char>) -> bool {
    match version.get(field) {
        None => true,
        Some(value) => value == JsonValue::Null || value == JsonValue::Text(root),
    }
}

/// Whether a file record's source, if it has one, is one segment under `root`.
pub open spec fn source_under(file: JsonValue, root: Seq<char>) -> bool {
    match file.get("source"@) {
        None => true,
        Some(source) => exists|asset_type: Seq<char>| #[trigger]
            crate::coordinate::safe_segment(asset_type) && source == JsonValue::Text(
                crate::response::asset_source(root, asset_type),
            ),
    }
}

/// Whether every asset reference of a version record is under `root`.
pub open spec fn version_under(version: JsonValue, root: Seq<char>) -> bool {
    &&& reference_under(version, "assetUri"@, root)
    &&& reference_under(version, "fallbackAssetUri"@, root)
    &&& match version.get("files"@) {
        None => true,
        Some(files) => {
            &&& files is List
            &&& forall|i: int|
                0 <= i < files->List_0.len() ==> source_under(#[trigger] files->List_0[i], root)
        },
    }
}

/// Whether every asset reference of an extension record is under the asset root of its build.
pub open spec fn extension_served(
    extension: JsonValue,
    base_url: Seq<char>,
    repo_key: Seq<char>,
) -> bool {
    match (crate::response::identity_of(extension), extension.list_at("versions"@)) {
        (Some((publisher, name)), Some(versions)) => forall|i: int|
            0 <= i < versions.len() ==> (match crate::response::version_root(
                #[trigger] versions[i],
                base_url,
                repo_key,
                publisher,
                name,
            ) {
                Some(root) => version_under(versions[i], root),
                None => false,
            }),
        _ => false,
    }
}

/// Whether every asset reference of a result record is under the asset root of its build.
pub open spec fn result_served(result: JsonValue, base_url: Seq<char>, repo_key: Seq<char>) -> bool {
    match result.list_at("extensions"@) {
        Some(extensions) => forall|i: int|
            0 <= i < extensions.len() ==> extension_served(
                #[trigger] extensions[i],
                base_url,
                repo_key,
            ),
        None => false,
    }
}

/// Whether every asset reference of a gallery document is under the asset root of its build.
pub open spec fn response_served(
    response: JsonValue,
    base_url: Seq<char>,
    repo_key: Seq<char>,
) -> bool {
    match response.list_at("results"@) {
        Some(results) => forall|i: int|
            0 <= i < results.len() ==> result_served(#[trigger] results[i], base_url, repo_key),
        None => false,
    }
}

/// The members of a version record that lead to its assets.
pub open spec fn asset_member(key: Seq<char>) -> bool {
    key == "assetUri"@ || key == "fallbackAssetUri"@ || key == "files"@
}

/// Whether two file records differ in nothing but their source.
pub open spec fn same_file(before: JsonValue, after: JsonValue) -> bool {
    forall|key: Seq<char>| key != "source"@ ==> #[trigger] after.get(key) == before.get(key)
}

/// Whether two version records differ in nothing but where their asset references lead.
pub open spec fn same_version(before: JsonValue, after: JsonValue) -> bool {
    &&& forall|key: Seq<char>|
        !asset_member(key) ==> #[trigger] after.get(key) == before.get(key)
    &&& forall|key: Seq<char>|
        asset_member(key) ==> ((#[trigger] after.get(key)) is Some <==> before.get(key) is Some)
    &&& match (before.list_at("files"@), after.list_at("files"@)) {
        (Some(files), Some(kept)) => {
            &&& files.len() == kept.len()
            &&& forall|i: int| 0 <= i < files.len() ==> same_file(files[i], #[trigger] kept[i])
        },
        (None, None) => true,
        _ => false,
    }
}

/// A rewritten file record has its source under `root`, and is otherwise as it was.
pub proof fn rewritten_files_are_served(file: JsonValue, root: Seq<char>)
    requires
        crate::response::rewritten_file(file, root) is Some,
    ensures
        source_under(crate::response::rewritten_file(file, root)->Some_0, root),
        same_file(file, crate::response::rewritten_file(file, root)->Some_0),
{
    let after = crate::response::rewritten_file(file, root)->Some_0;
    if let Some(source) = file.get("source"@) {
        let asset_type = crate::response::asset_type_of(file, source->Text_0)->Some_0;
        assert(crate::coordinate::safe_segment(asset_type));
        assert(after.get("source"@) == Some(
            JsonValue::Text(crate::response::asset_source(root, asset_type)),
        ));
    }
}

proof fn lemma_reference(version: JsonValue, field: Seq<char>, root: Seq<char>)
    requires
        crate::response::with_reference(version, field, root) is Some,
    ensures
        ({
            let after = crate::response::with_reference(version, field, root)->Some_0;
            &&& reference_under(after, field, root)
            &&& forall|key: Seq<char>| key != field ==> #[trigger] after.get(key) == version.get(key)
            &&& after.get(field) is Some <==> version.get(field) is Some
        }),
{
}

proof fn lemma_files(version: JsonValue, root: Seq<char>)
    requires
        crate::response::with_files(version, root) is Some,
    ensures
        ({
            let after = crate::response::with_files(version, root)->Some_0;
            &&& match after.get("files"@) {
                None => version.get("files"@) is None,
                Some(files) => {
                    &&& files is List
                    &&& version.list_at("files"@) is Some
                    &&& version.list_at("files"@)->Some_0.len() == files->List_0.len()
                    &&& forall|i: int|
                        0 <= i < files->List_0.len() ==> source_under(
                            #[trigger] files->List_0[i],
                            root,
                        ) && same_file(version.list_at("files"@)->Some_0[i], files->List_0[i])
                },
            }
            &&& forall|key: Seq<char>|
                key != "files"@ ==> #[trigger] after.get(key) == version.get(key)
        }),
{
    if version.get("files"@) is Some {
        let f = crate::response::file_rewrite(root);
        let files = version.list_at("files"@)->Some_0;
        let after = crate::response::with_files(version, root)->Some_0;
        let kept = crate::response::map_all(files, f)->Some_0;
        assert(after.get("files"@) == Some(JsonValue::List(kept)));
        assert forall|i: int| 0 <= i < kept.len() implies source_under(#[trigger] kept[i], root)
            && same_file(files[i], kept[i]) by {
            assert(f(files[i]) is Some);
            assert(kept[i] == crate::response::rewritten_file(files[i], root)->Some_0);
            rewritten_files_are_served(files[i], root);
        }
    }
}

/// A rewritten version record has every asset reference under its asset root, and is otherwise
/// as it was.
pub proof fn rewritten_versions_are_served(
    version: JsonValue,
    base_url: Seq<char>,
    repo_key: Seq<char>,
    publisher: Seq<char>,
    name: Seq<char>,
)
    requires
        crate::response::rewritten_version(version, base_url, repo_key, publisher, name) is Some,
    ensures
        ({
            let after = crate::response::rewritten_version(
                version,
                base_url,
                repo_key,
                publisher,
                name,
            )->Some_0;
            let root = crate::response::version_root(version, base_url, repo_key, publisher, name);
            &&& root is Some
            &&& crate::response::version_root(after, base_url, repo_key, publisher, name) == root
            &&& version_under(after, root->Some_0)
            &&& same_version(version, after)
            &&& crate::response::version_coordinate(after) == crate::response::version_coordinate(
                version,
            )
            &&& crate::response::version_date(after) == crate::response::version_date(version)
        }),
{
    reveal_strlit("assetUri");
    reveal_strlit("fallbackAssetUri");
    reveal_strlit("files");
    reveal_strlit("version");
    reveal_strlit("targetPlatform");
    reveal_strlit("lastUpdated");
    let root = crate::response::version_root(
        version,
        base_url,
        repo_key,
        publisher,
        name,
    )->Some_0;
    let one = crate::response::with_reference(version, "assetUri"@, root)->Some_0;
    let two = crate::response::with_reference(one, "fallbackAssetUri"@, root)->Some_0;
    let after = crate::response::with_files(two, root)->Some_0;
    lemma_reference(version, "assetUri"@, root);
    lemma_reference(one, "fallbackAssetUri"@, root);
    lemma_files(two, root);
    assert("assetUri"@.len() == 8);
    assert("fallbackAssetUri"@.len() == 16);
    assert("files"@.len() == 5);
    assert("version"@.len() == 7);
    assert("targetPlatform"@.len() == 14);
    assert("lastUpdated"@.len() == 11);
    assert(after.get("assetUri"@) == one.get("assetUri"@));
    assert(after.get("fallbackAssetUri"@) == two.get("fallbackAssetUri"@));
    assert(two.get("files"@) == version.get("files"@));
    assert(after.get("version"@) == version.get("version"@));
    assert(after.get("targetPlatform"@) == version.get("targetPlatform"@));
    assert(after.get("lastUpdated"@) == version.get("lastUpdated"@));
}

/// A rewritten extension record has every asset reference under this server, keeps its identity
/// and its number of versions, and is otherwise as it was.
pub proof fn rewritten_extensions_are_served(
    extension: JsonValue,
    base_url: Seq<char>,
    repo_key: Seq<char>,
)
    requires
        crate::response::rewritten_extension(extension, base_url, repo_key) is Some,
    ensures
        ({
            let after = crate::response::rewritten_extension(
                extension,
                base_url,
                repo_key,
            )->Some_0;
            &&& extension_served(after, base_url, repo_key)
            &&& crate::response::identity_of(after) == crate::response::identity_of(extension)
            &&& forall|key: Seq<char>|
                key != "versions"@ ==> #[trigger] after.get(key) == extension.get(key)
            &&& after.list_at("versions"@)->Some_0.len() == extension.list_at(
                "versions"@,
            )->Some_0.len()
            &&& forall|i: int|
                0 <= i < extension.list_at("versions"@)->Some_0.len() ==> same_version(
                    extension.list_at("versions"@)->Some_0[i],
                    #[trigger] after.list_at("versions"@)->Some_0[i],
                )
        }),
{
    reveal_strlit("versions");
    reveal_strlit("publisher");
    reveal_strlit("extensionName");
    assert("versions"@.len() == 8);
    assert("publisher"@.len() == 9);
    assert("extensionName"@.len() == 13);
    let (publisher, name) = crate::response::identity_of(extension)->Some_0;
    let f = crate::response::version_rewrite(base_url, repo_key, publisher, name);
    let versions = extension.list_at("versions"@)->Some_0;
    let kept = crate::response::map_all(versions, f)->Some_0;
    let after = crate::response::rewritten_extension(extension, base_url, repo_key)->Some_0;
    assert(after.get("versions"@) == Some(JsonValue::List(kept)));
    assert(after.get("publisher"@) == extension.get("publisher"@));
    assert(after.get("extensionName"@) == extension.get("extensionName"@));
    assert forall|i: int| 0 <= i < kept.len() implies same_version(versions[i], #[trigger] kept[i])
        && (match crate::response::version_root(kept[i], base_url, repo_key, publisher, name) {
        Some(root) => version_under(kept[i], root),
        None => false,
    }) by {
        assert(f(versions[i]) is Some);
        rewritten_versions_are_served(versions[i], base_url, repo_key, publisher, name);
    }
}

/// A rewritten gallery document has every asset reference under this server. Each of its
/// extension records is the rewrite of the one in its place, and all else in it is as it was.
pub proof fn rewritten_responses_are_served(
    response: JsonValue,
    base_url: Seq<char>,
    repo_key: Seq<char>,
)
    requires
        crate::response::rewritten_response(response, base_url, repo_key) is Some,
    ensures
        ({
            let after = crate::response::rewritten_response(response, base_url, repo_key)->Some_0;
            let results = response.list_at("results"@)->Some_0;
            let kept = after.list_at("results"@)->Some_0;
            &&& response_served(after, base_url, repo_key)
            &&& forall|key: Seq<char>|
                key != "results"@ ==> #[trigger] after.get(key) == response.get(key)
            &&& kept.len() == results.len()
            &&& forall|i: int, key: Seq<char>|
                0 <= i < results.len() && key != "extensions"@ ==> #[trigger] kept[i].get(key)
                    == results[i].get(key)
            &&& forall|i: int|
                0 <= i < results.len() ==> crate::response::map_all(
                    results[i].list_at("extensions"@)->Some_0,
                    crate::response::extension_rewrite(base_url, repo_key),
                ) == (#[trigger] kept[i]).list_at("extensions"@)
        }),
{
    let f = crate::response::result_rewrite(base_url, repo_key);
    let g = crate::response::extension_rewrite(base_url, repo_key);
    let results = response.list_at("results"@)->Some_0;
    let kept = crate::response::map_all(results, f)->Some_0;
    let after = crate::response::rewritten_response(response, base_url, repo_key)->Some_0;
    assert(after.get("results"@) == Some(JsonValue::List(kept)));
    assert forall|i: int| 0 <= i < kept.len() implies result_served(
        #[trigger] kept[i],
        base_url,
        repo_key,
    ) && crate::response::map_all(results[i].list_at("extensions"@)->Some_0, g) == kept[i].list_at(
        "extensions"@,
    ) && (forall|key: Seq<char>|
        key != "extensions"@ ==> #[trigger] kept[i].get(key) == results[i].get(key)) by {
        assert(f(results[i]) is Some);
        let extensions = results[i].list_at("extensions"@)->Some_0;
        let served = crate::response::map_all(extensions, g)->Some_0;
        assert(kept[i].get("extensions"@) == Some(JsonValue::List(served)));
        assert forall|j: int| 0 <= j < served.len() implies extension_served(
            #[trigger] served[j],
            base_url,
            repo_key,
        ) by {
            assert(g(extensions[j]) is Some);
            rewritten_extensions_are_served(extensions[j], base_url, repo_key);
        }
    }
}

} // verus!
