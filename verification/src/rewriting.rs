//! Laws on the rewrite of gallery documents: which documents it takes, and what becomes of each
//! reference in them.

use vstd::prelude::*;

use crate::json::JsonValue;

verus! {

/// The text of a member, where it is one.
pub open spec fn said(record: JsonValue, key: Seq<char>) -> Option<Seq<char>> {
    match record.get(key) {
        Some(JsonValue::Text(text)) => Some(text),
        _ => None,
    }
}

/// An extension record has an identity exactly where it says a publisher and a name that may stand
/// in a path, and they are its identity.
pub proof fn identities_are_publisher_and_name(extension: JsonValue)
    ensures
        ({
            let publisher = match extension.get("publisher"@) {
                Some(owner) => said(owner, "publisherName"@),
                None => None,
            };
            let name = said(extension, "extensionName"@);
            match crate::response::identity_of(extension) {
                Some((found_publisher, found_name)) => {
                    &&& publisher == Some(found_publisher)
                    &&& name == Some(found_name)
                    &&& crate::coordinate::safe_segment(found_publisher)
                    &&& crate::coordinate::safe_segment(found_name)
                },
                None => publisher is None || name is None || !crate::coordinate::safe_segment(
                    publisher->Some_0,
                ) || !crate::coordinate::safe_segment(name->Some_0),
            }
        }),
{
}

/// The platform that a version record is for.
pub open spec fn record_platform(version: JsonValue) -> Seq<char> {
    crate::coordinate::platform_of(said(version, "targetPlatform"@))
}

/// A version record has a coordinate exactly where it says a version, and version and platform may
/// stand in a path; the coordinate is the version, an `@` and the platform.
pub proof fn coordinates_are_version_and_platform(version: JsonValue)
    ensures
        ({
            let name = said(version, "version"@);
            let platform = record_platform(version);
            match crate::response::version_coordinate(version) {
                Some(coordinate) => {
                    &&& name is Some
                    &&& crate::coordinate::safe_segment(name->Some_0)
                    &&& crate::coordinate::safe_platform(platform)
                    &&& coordinate == name->Some_0 + seq!['@'] + platform
                },
                None => name is None || !crate::coordinate::safe_segment(name->Some_0)
                    || !crate::coordinate::safe_platform(platform),
            }
        }),
{
    let platform = record_platform(version);
    if crate::coordinate::safe_platform(platform) {
        crate::coordinate::safe_platforms_are_normal(platform);
    }
    if let Some(name) = said(version, "version"@) {
        crate::words::policies_know_extensions_and_builds(
            Seq::empty(),
            Seq::empty(),
            name,
            Some(platform),
        );
    }
}

/// The type of the asset that a file record is of: the one it says, or else the last segment of
/// the path that its source has before any `?`.
pub open spec fn file_type(file: JsonValue, source: Seq<char>) -> Seq<char> {
    match said(file, "assetType"@) {
        Some(named) => if named.len() > 0 {
            named
        } else {
            crate::text::after_last(crate::text::before_first(source, '?'), '/')
        },
        None => crate::text::after_last(crate::text::before_first(source, '?'), '/'),
    }
}

/// A file record without a source is left as it is. The source of another becomes the root, a slash
/// and the type of its asset, percent-encoded; all else in it is left. A record is refused exactly
/// where its source is no text or the type may not stand in a path.
pub proof fn sources_become_root_and_type(file: JsonValue, root: Seq<char>)
    ensures
        match file.get("source"@) {
            None => crate::response::rewritten_file(file, root) == Some(file),
            Some(JsonValue::Text(source)) => if crate::coordinate::safe_segment(
                file_type(file, source),
            ) {
                match crate::response::rewritten_file(file, root) {
                    Some(after) => {
                        &&& after.get("source"@) == Some(
                            JsonValue::Text(
                                root + seq!['/'] + crate::percent::encoded(
                                    file_type(file, source),
                                ),
                            ),
                        )
                        &&& forall|key: Seq<char>|
                            key != "source"@ ==> #[trigger] after.get(key) == file.get(key)
                    },
                    None => false,
                }
            } else {
                crate::response::rewritten_file(file, root) is None
            },
            Some(_) => crate::response::rewritten_file(file, root) is None,
        },
{
    reveal_strlit("/");
    assert("/"@ =~= seq!['/']);
}

/// Whether a member is one that a reference may be: there is none, it is null, or it is a text.
pub open spec fn referable(version: JsonValue, key: Seq<char>) -> bool {
    match version.get(key) {
        None => true,
        Some(JsonValue::Null) => true,
        Some(JsonValue::Text(_)) => true,
        Some(_) => false,
    }
}

/// Whether a reference is what it is to become: the root where it was a text, and else as it was.
pub open spec fn refers(
    before: JsonValue,
    after: JsonValue,
    key: Seq<char>,
    root: Seq<char>,
) -> bool {
    after.get(key) == (match before.get(key) {
        Some(JsonValue::Text(_)) => Some(JsonValue::Text(root)),
        other => other,
    })
}

/// Whether the files of a version record can be rewritten.
pub open spec fn files_rewritable(version: JsonValue, root: Seq<char>) -> bool {
    match version.get("files"@) {
        None => true,
        Some(JsonValue::List(files)) => forall|i: int|
            0 <= i < files.len() ==> crate::response::rewritten_file(
                #[trigger] files[i],
                root,
            ) is Some,
        Some(_) => false,
    }
}

/// Where the assets of a version record are to be served.
pub open spec fn record_root(
    version: JsonValue,
    base_url: Seq<char>,
    repo_key: Seq<char>,
    publisher: Seq<char>,
    name: Seq<char>,
) -> Seq<char> {
    crate::text::without_trailing(base_url, '/') + "/vscode/"@ + crate::percent::encoded(repo_key)
        + "/asset/"@ + crate::percent::encoded(publisher) + "/"@ + crate::percent::encoded(name)
        + "/"@ + crate::percent::encoded(said(version, "version"@)->Some_0) + "/"@
        + crate::percent::encoded(record_platform(version))
}

proof fn lemma_record_root(
    version: JsonValue,
    base_url: Seq<char>,
    repo_key: Seq<char>,
    publisher: Seq<char>,
    name: Seq<char>,
)
    ensures
        crate::response::version_root(version, base_url, repo_key, publisher, name) == (
        if crate::response::version_coordinate(version) is Some {
            Some(record_root(version, base_url, repo_key, publisher, name))
        } else {
            None
        }),
{
    if crate::response::version_coordinate(version) is Some {
        let root = crate::response::version_root(
            version,
            base_url,
            repo_key,
            publisher,
            name,
        )->Some_0;
        assert(root =~= record_root(version, base_url, repo_key, publisher, name));
    }
}

/// A version record is rewritten exactly where it has a coordinate, its asset references are texts
/// or null or not there, and each of its files can be rewritten. Each reference that was a text is
/// then the asset root of the build, each file is rewritten to that root in its place, and all else
/// is as it was.
pub proof fn versions_are_rewritten_reference_by_reference(
    version: JsonValue,
    base_url: Seq<char>,
    repo_key: Seq<char>,
    publisher: Seq<char>,
    name: Seq<char>,
)
    ensures
        ({
            let root = record_root(version, base_url, repo_key, publisher, name);
            match crate::response::rewritten_version(version, base_url, repo_key, publisher, name) {
                Some(after) => {
                    &&& crate::response::version_coordinate(version) is Some
                    &&& referable(version, "assetUri"@)
                    &&& referable(version, "fallbackAssetUri"@)
                    &&& files_rewritable(version, root)
                    &&& refers(version, after, "assetUri"@, root)
                    &&& refers(version, after, "fallbackAssetUri"@, root)
                    &&& match version.list_at("files"@) {
                        Some(files) => match after.list_at("files"@) {
                            Some(kept) => {
                                &&& kept.len() == files.len()
                                &&& forall|i: int|
                                    0 <= i < files.len() ==> crate::response::rewritten_file(
                                        files[i],
                                        root,
                                    ) == Some(#[trigger] kept[i])
                            },
                            None => false,
                        },
                        None => after.get("files"@) is None,
                    }
                    &&& forall|key: Seq<char>|
                        key != "assetUri"@ && key != "fallbackAssetUri"@ && key != "files"@
                            ==> #[trigger] after.get(key) == version.get(key)
                },
                None => !(crate::response::version_coordinate(version) is Some && referable(
                    version,
                    "assetUri"@,
                ) && referable(version, "fallbackAssetUri"@) && files_rewritable(version, root)),
            }
        }),
{
    reveal_strlit("assetUri");
    reveal_strlit("fallbackAssetUri");
    reveal_strlit("files");
    assert("assetUri"@.len() == 8);
    assert("fallbackAssetUri"@.len() == 16);
    assert("files"@.len() == 5);
    lemma_record_root(version, base_url, repo_key, publisher, name);
    let root = record_root(version, base_url, repo_key, publisher, name);
    if crate::response::version_coordinate(version) is Some && referable(version, "assetUri"@)
        && referable(version, "fallbackAssetUri"@) {
        let first = crate::response::with_reference(version, "assetUri"@, root)->Some_0;
        let second = crate::response::with_reference(first, "fallbackAssetUri"@, root)->Some_0;
        assert(first.get("fallbackAssetUri"@) == version.get("fallbackAssetUri"@));
        assert(second.get("files"@) == version.get("files"@));
        let f = crate::response::file_rewrite(root);
        if let Some(JsonValue::List(files)) = version.get("files"@) {
            if files_rewritable(version, root) {
                assert forall|i: int| 0 <= i < files.len() implies (#[trigger] f(
                    files[i],
                )) is Some by {
                    assert(crate::response::rewritten_file(files[i], root) is Some);
                }
            } else {
                let i = choose|i: int|
                    0 <= i < files.len() && crate::response::rewritten_file(
                        #[trigger] files[i],
                        root,
                    ) is None;
                assert(f(files[i]) is None);
            }
            if crate::response::map_all(files, f) is Some {
                assert forall|i: int| 0 <= i < files.len() implies crate::response::rewritten_file(
                    #[trigger] files[i],
                    root,
                ) is Some by {
                    assert(f(files[i]) is Some);
                }
                let kept = crate::response::map_all(files, f)->Some_0;
                assert forall|i: int| 0 <= i < files.len() implies crate::response::rewritten_file(
                    files[i],
                    root,
                ) == Some(#[trigger] kept[i]) by {
                    assert(f(files[i]) is Some);
                }
            }
        }
    }
}

/// Where a list is rewritten item by item: where each of its items can be, and to what each of
/// them becomes.
proof fn lemma_map_all(items: Seq<JsonValue>, f: spec_fn(JsonValue) -> Option<JsonValue>)
    ensures
        match crate::response::map_all(items, f) {
            Some(mapped) => {
                &&& mapped.len() == items.len()
                &&& forall|i: int|
                    0 <= i < items.len() ==> f(items[i]) == Some(#[trigger] mapped[i])
            },
            None => exists|i: int| 0 <= i < items.len() && (#[trigger] f(items[i])) is None,
        },
{
    if let Some(mapped) = crate::response::map_all(items, f) {
        assert forall|i: int| 0 <= i < items.len() implies f(items[i]) == Some(
            #[trigger] mapped[i],
        ) by {
            assert(f(items[i]) is Some);
        }
    }
}

/// An extension record is rewritten exactly where it has an identity, a list of versions, and each
/// of them can be rewritten. Each of them is rewritten in its place, and all else is as it was.
pub proof fn extensions_are_rewritten_version_by_version(
    extension: JsonValue,
    base_url: Seq<char>,
    repo_key: Seq<char>,
)
    ensures
        match crate::response::rewritten_extension(extension, base_url, repo_key) {
            Some(after) => {
                &&& crate::response::identity_of(extension) is Some
                &&& extension.list_at("versions"@) is Some
                &&& after.list_at("versions"@) is Some
                &&& after.list_at("versions"@)->Some_0.len() == extension.list_at(
                    "versions"@,
                )->Some_0.len()
                &&& forall|i: int|
                    0 <= i < extension.list_at("versions"@)->Some_0.len()
                        ==> crate::response::rewritten_version(
                        extension.list_at("versions"@)->Some_0[i],
                        base_url,
                        repo_key,
                        crate::response::identity_of(extension)->Some_0.0,
                        crate::response::identity_of(extension)->Some_0.1,
                    ) == Some(#[trigger] after.list_at("versions"@)->Some_0[i])
                &&& forall|key: Seq<char>|
                    key != "versions"@ ==> #[trigger] after.get(key) == extension.get(key)
            },
            None => crate::response::identity_of(extension) is None || extension.list_at(
                "versions"@,
            ) is None || exists|i: int|
                0 <= i < extension.list_at("versions"@)->Some_0.len()
                    && crate::response::rewritten_version(
                    #[trigger] extension.list_at("versions"@)->Some_0[i],
                    base_url,
                    repo_key,
                    crate::response::identity_of(extension)->Some_0.0,
                    crate::response::identity_of(extension)->Some_0.1,
                ) is None,
        },
{
    if let Some((publisher, name)) = crate::response::identity_of(extension) {
        if let Some(versions) = extension.list_at("versions"@) {
            let f = crate::response::version_rewrite(base_url, repo_key, publisher, name);
            lemma_map_all(versions, f);
            if crate::response::map_all(versions, f) is None {
                let i = choose|i: int| 0 <= i < versions.len() && (#[trigger] f(
                    versions[i],
                )) is None;
                assert(crate::response::rewritten_version(
                    versions[i],
                    base_url,
                    repo_key,
                    publisher,
                    name,
                ) is None);
            }
        }
    }
}

/// Whether a result record can be rewritten: it has a list of extension records, and each can be.
pub open spec fn result_rewritable(
    result: JsonValue,
    base_url: Seq<char>,
    repo_key: Seq<char>,
) -> bool {
    match result.list_at("extensions"@) {
        Some(extensions) => forall|j: int|
            0 <= j < extensions.len() ==> crate::response::rewritten_extension(
                #[trigger] extensions[j],
                base_url,
                repo_key,
            ) is Some,
        None => false,
    }
}

/// Whether `after` is `before` with each extension record rewritten in its place.
pub open spec fn result_rewritten(
    before: JsonValue,
    after: JsonValue,
    base_url: Seq<char>,
    repo_key: Seq<char>,
) -> bool {
    &&& match (before.list_at("extensions"@), after.list_at("extensions"@)) {
        (Some(extensions), Some(kept)) => {
            &&& kept.len() == extensions.len()
            &&& forall|j: int|
                0 <= j < extensions.len() ==> crate::response::rewritten_extension(
                    extensions[j],
                    base_url,
                    repo_key,
                ) == Some(#[trigger] kept[j])
        },
        _ => false,
    }
    &&& forall|key: Seq<char>| key != "extensions"@ ==> #[trigger] after.get(key) == before.get(key)
}

proof fn lemma_result(result: JsonValue, base_url: Seq<char>, repo_key: Seq<char>)
    ensures
        ({
            let f = crate::response::result_rewrite(base_url, repo_key);
            match f(result) {
                Some(after) => result_rewritable(result, base_url, repo_key) && result_rewritten(
                    result,
                    after,
                    base_url,
                    repo_key,
                ),
                None => !result_rewritable(result, base_url, repo_key),
            }
        }),
{
    let inner = crate::response::extension_rewrite(base_url, repo_key);
    if let Some(extensions) = result.list_at("extensions"@) {
        lemma_map_all(extensions, inner);
        if let Some(mapped) = crate::response::map_all(extensions, inner) {
            assert forall|j: int|
                0 <= j < extensions.len() implies crate::response::rewritten_extension(
                #[trigger] extensions[j],
                base_url,
                repo_key,
            ) is Some by {
                assert(inner(extensions[j]) == Some(mapped[j]));
            }
            assert forall|j: int|
                0 <= j < extensions.len() implies crate::response::rewritten_extension(
                extensions[j],
                base_url,
                repo_key,
            ) == Some(#[trigger] mapped[j]) by {
                assert(inner(extensions[j]) == Some(mapped[j]));
            }
        } else {
            let j = choose|j: int| 0 <= j < extensions.len() && (#[trigger] inner(
                extensions[j],
            )) is None;
            assert(crate::response::rewritten_extension(extensions[j], base_url, repo_key) is None);
        }
    }
}

/// A gallery document is rewritten exactly where it has a list of results and each of them can be;
/// then every extension record of every result is rewritten in its place, and all else is as it
/// was.
pub proof fn documents_are_rewritten_record_by_record(
    response: JsonValue,
    base_url: Seq<char>,
    repo_key: Seq<char>,
)
    ensures
        match crate::response::rewritten_response(response, base_url, repo_key) {
            Some(after) => match (response.list_at("results"@), after.list_at("results"@)) {
                (Some(results), Some(kept)) => {
                    &&& kept.len() == results.len()
                    &&& forall|i: int|
                        0 <= i < results.len() ==> result_rewritten(
                            results[i],
                            #[trigger] kept[i],
                            base_url,
                            repo_key,
                        )
                    &&& forall|key: Seq<char>|
                        key != "results"@ ==> #[trigger] after.get(key) == response.get(key)
                },
                _ => false,
            },
            None => match response.list_at("results"@) {
                Some(results) => exists|i: int|
                    0 <= i < results.len() && !result_rewritable(
                        #[trigger] results[i],
                        base_url,
                        repo_key,
                    ),
                None => true,
            },
        },
{
    let f = crate::response::result_rewrite(base_url, repo_key);
    if let Some(results) = response.list_at("results"@) {
        lemma_map_all(results, f);
        if let Some(mapped) = crate::response::map_all(results, f) {
            assert forall|i: int| 0 <= i < results.len() implies result_rewritten(
                results[i],
                #[trigger] mapped[i],
                base_url,
                repo_key,
            ) by {
                assert(f(results[i]) == Some(mapped[i]));
                lemma_result(results[i], base_url, repo_key);
            }
        } else {
            let i = choose|i: int| 0 <= i < results.len() && (#[trigger] f(results[i])) is None;
            lemma_result(results[i], base_url, repo_key);
        }
    }
}

} // verus!
