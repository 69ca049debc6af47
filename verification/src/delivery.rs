//! Laws on what reaches a client once documents are composed, gated and rewritten.

use vstd::prelude::*;

use crate::json::JsonValue;
use crate::skeleton::{GallerySkeletonWireResult, SkeletonEntry};

verus! {

/// Whether a version record has a coordinate that is not withheld.
pub open spec fn is_allowed(version: JsonValue, blocked: Seq<Seq<char>>) -> bool {
    match crate::response::version_coordinate(version) {
        Some(coordinate) => !blocked.contains(coordinate),
        None => false,
    }
}

/// Whether an extension record has versions, none of them withheld.
pub open spec fn none_withheld(extension: JsonValue, blocked: Seq<Seq<char>>) -> bool {
    match extension.list_at("versions"@) {
        Some(versions) => versions.len() > 0 && forall|i: int|
            0 <= i < versions.len() ==> is_allowed(#[trigger] versions[i], blocked),
        None => false,
    }
}

/// Whether `after` is what is served of the extension record at place `k`: the same extension,
/// with versions that the answer for it does not withhold.
pub open spec fn comes_through(
    results: Seq<JsonValue>,
    verdicts: Seq<Seq<Seq<char>>>,
    k: nat,
    after: JsonValue,
) -> bool {
    match crate::gate::extension_at(results, k) {
        Ok(Some(before)) => {
            &&& k < verdicts.len()
            &&& crate::response::identity_of(before) is Some
            &&& crate::response::identity_of(after) == crate::response::identity_of(before)
            &&& none_withheld(after, verdicts[k as int])
        },
        _ => false,
    }
}

/// Whether `after` is what is served of an extension record that the upstream sent.
pub open spec fn is_let_through(
    results: Seq<JsonValue>,
    verdicts: Seq<Seq<Seq<char>>>,
    after: JsonValue,
) -> bool {
    exists|k: nat| #[trigger] comes_through(results, verdicts, k, after)
}

/// Whether `gated` is the extension record at place `k` without what the answer for it withholds.
spec fn gated_from(
    results: Seq<JsonValue>,
    verdicts: Seq<Seq<Seq<char>>>,
    k: nat,
    gated: JsonValue,
) -> bool {
    match crate::gate::extension_at(results, k) {
        Ok(Some(before)) => {
            &&& k < verdicts.len()
            &&& crate::gate::gated_extension(before, verdicts[k as int]) == Some(gated)
            &&& crate::gate::has_versions(gated)
        },
        _ => false,
    }
}

proof fn lemma_gated_results(results: Seq<JsonValue>, verdicts: Seq<Seq<Seq<char>>>, i: int, j: int)
    requires
        crate::gate::gated_results(results, verdicts) is Ok,
        0 <= i < results.len(),
    ensures
        ({
            let gated = crate::gate::gated_results(results, verdicts)->Ok_0;
            let extensions = gated[i].list_at("extensions"@);
            &&& gated.len() == results.len()
            &&& extensions is Some
            &&& 0 <= j < extensions->Some_0.len() ==> exists|k: nat| #[trigger]
                gated_from(results, verdicts, k, extensions->Some_0[j])
        }),
    decreases results.len(),
{
    let gated = crate::gate::gated_results(results, verdicts)->Ok_0;
    let before = results[0].list_at("extensions"@)->Some_0;
    let n = before.len();
    let first = crate::gate::gated_result(results[0], verdicts.take(n as int))->Some_0;
    let rest = results.drop_first();
    let later = verdicts.skip(n as int);
    assert(gated =~= seq![first] + crate::gate::gated_results(rest, later)->Ok_0);
    if rest.len() > 0 {
        lemma_gated_results(rest, later, 0, 0);
    }
    crate::gate::gated_extensions_have_versions(results[0], verdicts.take(n as int));
    let extensions = gated[i].list_at("extensions"@)->Some_0;
    if i == 0 {
        if 0 <= j < extensions.len() {
            assert(crate::gate::has_versions(extensions[j]));
            let k = choose|k: int|
                0 <= k < before.len() && crate::gate::gated_extension(
                    #[trigger] before[k],
                    verdicts.take(n as int)[k],
                ) == Some(extensions[j]);
            assert(gated_from(results, verdicts, k as nat, extensions[j]));
        }
    } else {
        lemma_gated_results(rest, later, i - 1, j);
        if 0 <= j < extensions.len() {
            let k = choose|k: nat| #[trigger] gated_from(rest, later, k, extensions[j]);
            assert(crate::gate::extension_at(results, k + n) == crate::gate::extension_at(rest, k));
            assert(gated_from(results, verdicts, k + n, extensions[j]));
        }
    }
}

/// Rewriting an extension record withholds what was withheld, and leaves the extension the same.
proof fn lemma_rewritten_extension(
    before: JsonValue,
    blocked: Seq<Seq<char>>,
    base_url: Seq<char>,
    repo_key: Seq<char>,
)
    requires
        crate::gate::gated_extension(before, blocked) is Some,
        crate::gate::has_versions(crate::gate::gated_extension(before, blocked)->Some_0),
        crate::response::rewritten_extension(
            crate::gate::gated_extension(before, blocked)->Some_0,
            base_url,
            repo_key,
        ) is Some,
    ensures
        ({
            let after = crate::response::rewritten_extension(
                crate::gate::gated_extension(before, blocked)->Some_0,
                base_url,
                repo_key,
            )->Some_0;
            &&& crate::response::identity_of(before) is Some
            &&& crate::response::identity_of(after) == crate::response::identity_of(before)
            &&& none_withheld(after, blocked)
        }),
{
    reveal_strlit("versions");
    reveal_strlit("publisher");
    reveal_strlit("extensionName");
    assert("versions"@.len() == 8);
    assert("publisher"@.len() == 9);
    assert("extensionName"@.len() == 13);
    let gated = crate::gate::gated_extension(before, blocked)->Some_0;
    let after = crate::response::rewritten_extension(gated, base_url, repo_key)->Some_0;
    crate::gate::withheld_versions_are_not_served(before, blocked);
    crate::served::rewritten_extensions_are_served(gated, base_url, repo_key);
    assert(gated.get("publisher"@) == before.get("publisher"@));
    assert(gated.get("extensionName"@) == before.get("extensionName"@));
    let (publisher, name) = crate::response::identity_of(gated)->Some_0;
    let versions = gated.list_at("versions"@)->Some_0;
    let rewrite = crate::response::version_rewrite(base_url, repo_key, publisher, name);
    let kept = crate::response::map_all(versions, rewrite)->Some_0;
    assert(after.list_at("versions"@) == Some(kept));
    assert forall|i: int| 0 <= i < kept.len() implies is_allowed(#[trigger] kept[i], blocked) by {
        assert(rewrite(versions[i]) is Some);
        assert(kept[i] == crate::response::rewritten_version(
            versions[i],
            base_url,
            repo_key,
            publisher,
            name,
        )->Some_0);
        crate::served::rewritten_versions_are_served(
            versions[i],
            base_url,
            repo_key,
            publisher,
            name,
        );
    }
}

/// What is gated and rewritten holds no version that the age gate withholds: each extension record
/// of the document that is served is one that the upstream sent, with at least one version, and
/// with none that the answer for that very record names. Every asset reference in it is under
/// this server.
pub proof fn served_documents_hold_nothing_withheld(
    response: JsonValue,
    verdicts: Seq<Seq<Seq<char>>>,
    base_url: Seq<char>,
    repo_key: Seq<char>,
)
    requires
        match crate::gate::gated_response(response, verdicts) {
            Ok(gated) => crate::response::rewritten_response(gated, base_url, repo_key) is Some,
            Err(_) => false,
        },
    ensures
        ({
            let gated = crate::gate::gated_response(response, verdicts)->Ok_0;
            let after = crate::response::rewritten_response(gated, base_url, repo_key)->Some_0;
            let results = response.list_at("results"@)->Some_0;
            let kept = after.list_at("results"@)->Some_0;
            &&& kept.len() == results.len()
            &&& crate::served::response_served(after, base_url, repo_key)
            &&& forall|i: int, j: int|
                0 <= i < kept.len() && 0 <= j < kept[i].list_at("extensions"@)->Some_0.len()
                    ==> is_let_through(
                    results,
                    verdicts,
                    #[trigger] kept[i].list_at("extensions"@)->Some_0[j],
                )
        }),
{
    let gated = crate::gate::gated_response(response, verdicts)->Ok_0;
    let after = crate::response::rewritten_response(gated, base_url, repo_key)->Some_0;
    let results = response.list_at("results"@)->Some_0;
    let middle = crate::gate::gated_results(results, verdicts)->Ok_0;
    let kept = after.list_at("results"@)->Some_0;
    crate::served::rewritten_responses_are_served(gated, base_url, repo_key);
    assert(gated.list_at("results"@) == Some(middle));
    if results.len() > 0 {
        lemma_gated_results(results, verdicts, 0, 0);
    }
    assert(kept.len() == results.len());
    assert forall|i: int, j: int|
        0 <= i < kept.len() && 0 <= j < kept[i].list_at(
            "extensions"@,
        )->Some_0.len() implies is_let_through(
        results,
        verdicts,
        #[trigger] kept[i].list_at("extensions"@)->Some_0[j],
    ) by {
        let rewrite = crate::response::extension_rewrite(base_url, repo_key);
        let extensions = middle[i].list_at("extensions"@)->Some_0;
        let served = kept[i].list_at("extensions"@)->Some_0;
        lemma_gated_results(results, verdicts, i, j);
        assert(crate::response::map_all(extensions, rewrite) == Some(served));
        assert(rewrite(extensions[j]) is Some);
        assert(served[j] == rewrite(extensions[j])->Some_0);
        let k = choose|k: nat| #[trigger] gated_from(results, verdicts, k, extensions[j]);
        let before = crate::gate::extension_at(results, k)->Ok_0->Some_0;
        lemma_rewritten_extension(before, verdicts[k as int], base_url, repo_key);
        assert(comes_through(results, verdicts, k, served[j]));
    }
}

/// No version that is kept of a history and that the age gate allows is newer than the one that
/// walking back serves for its platform.
pub proof fn walking_back_serves_the_newest(
    history: Seq<SkeletonEntry>,
    blocked: Seq<Seq<char>>,
    k: int,
    other: SkeletonEntry,
)
    requires
        0 <= k < crate::compose::served(crate::compose::kept_history(history), blocked).len(),
        crate::compose::kept_history(history).contains(other),
        !blocked.contains(crate::skeleton::entry_coordinate(other)),
        other.target_platform == crate::compose::served(
            crate::compose::kept_history(history),
            blocked,
        )[k].target_platform,
    ensures
        !crate::time::ahead(
            other.last_updated,
            crate::compose::served(
                crate::compose::kept_history(history),
                blocked,
            )[k].last_updated,
        ),
{
    let entries = crate::compose::kept_history(history);
    let chosen = crate::compose::served(entries, blocked)[k];
    crate::compose::the_newest_allowed_version_is_served(entries, blocked);
    crate::history::kept_versions_are_newest_first(history);
    assert(crate::compose::first_allowed(entries, blocked, chosen));
    let i = choose|i: int| #[trigger]
        crate::compose::is_first_allowed(entries, blocked, chosen, i);
    let j = choose|j: int| 0 <= j < entries.len() && entries[j] == other;
    assert(entries[j] == other);
    assert(entries[i] == chosen);
}

/// Every version that is kept of a history may stand in a path.
proof fn lemma_kept_are_safe(results: Seq<GallerySkeletonWireResult>, package: Seq<char>, i: int)
    requires
        0 <= i < crate::compose::kept_history(
            crate::skeleton::result_entries(results, package),
        ).len(),
    ensures
        crate::history::safe_entry(
            crate::compose::kept_history(crate::skeleton::result_entries(results, package))[i],
        ),
{
    let history = crate::skeleton::result_entries(results, package);
    let kept = crate::compose::kept_history(history);
    crate::history::kept_versions_are_newest_first(history);
    assert(history.contains(kept[i]));
    let k = choose|k: int| 0 <= k < history.len() && history[k] == kept[i];
    crate::history::histories_are_safe(results, package, k);
}

/// No version history keeps an extension from being composed, whatever is in it: composing fails
/// only where the detailed record has no identity or a version without a coordinate.
pub proof fn histories_never_fail_a_composition(
    extension: JsonValue,
    results: Seq<GallerySkeletonWireResult>,
    package: Seq<char>,
    base_url: Seq<char>,
    repo_key: Seq<char>,
    flags: u32,
)
    ensures
        crate::compose::composed_extension(
            extension,
            crate::compose::kept_history(crate::skeleton::result_entries(results, package)),
            base_url,
            repo_key,
            flags,
        ) is Some <==> crate::response::identity_of(extension) is Some
            && crate::gate::all_coordinates(crate::compose::detailed_of(extension)),
{
    if crate::response::identity_of(extension) is Some {
        let (publisher, name) = crate::response::identity_of(extension)->Some_0;
        let entries = crate::compose::kept_history(
            crate::skeleton::result_entries(results, package),
        );
        let detailed = crate::compose::detailed_of(extension);
        assert forall|i: int| 0 <= i < entries.len() implies (#[trigger]
        crate::compose::merged_at(
            entries,
            i,
            detailed,
            base_url,
            repo_key,
            publisher,
            name,
            flags,
        )) is Some by {
            lemma_kept_are_safe(results, package, i);
            crate::compose::merged_records_keep_their_coordinate(
                entries,
                i,
                detailed,
                base_url,
                repo_key,
                publisher,
                name,
                flags,
            );
        }
    }
}

/// No version history keeps an extension from being walked back: that fails only where the
/// extension record has no identity, and finds nothing only where all that is kept is withheld.
pub proof fn histories_never_fail_a_walk_back(
    extension: JsonValue,
    results: Seq<GallerySkeletonWireResult>,
    package: Seq<char>,
    blocked: Seq<Seq<char>>,
    base_url: Seq<char>,
    repo_key: Seq<char>,
)
    ensures
        ({
            let kept = crate::compose::kept_history(
                crate::skeleton::result_entries(results, package),
            );
            match crate::compose::walked_back(extension, kept, blocked, base_url, repo_key) {
                Ok(found) => {
                    &&& crate::response::identity_of(extension) is Some
                    &&& found is None <==> forall|i: int|
                        0 <= i < kept.len() ==> blocked.contains(
                            crate::skeleton::entry_coordinate(#[trigger] kept[i]),
                        )
                },
                Err(_) => crate::response::identity_of(extension) is None,
            }
        }),
{
    let kept = crate::compose::kept_history(crate::skeleton::result_entries(results, package));
    let chosen = crate::compose::served(kept, blocked);
    crate::compose::the_newest_allowed_version_is_served(kept, blocked);
    if crate::response::identity_of(extension) is Some {
        assert forall|k: int| 0 <= k < chosen.len() implies crate::history::safe_entry(
            #[trigger] chosen[k],
        ) by {
            assert(crate::compose::first_allowed(kept, blocked, chosen[k]));
            let i = choose|i: int| #[trigger]
                crate::compose::is_first_allowed(kept, blocked, chosen[k], i);
            lemma_kept_are_safe(results, package, i);
        }
        assert(crate::compose::all_safe(chosen));
        if chosen.len() > 0 {
            crate::compose::walked_back_records_are_served_as_built(
                extension,
                kept,
                blocked,
                base_url,
                repo_key,
            );
        }
    }
}

/// What is left over of detailed records is detailed, and no more than there was.
proof fn lemma_leftovers(detailed: Seq<JsonValue>, entries: Seq<SkeletonEntry>, n: nat)
    requires
        n <= detailed.len(),
    ensures
        crate::compose::leftovers(detailed, entries, n).len() <= n,
        forall|i: int|
            0 <= i < crate::compose::leftovers(detailed, entries, n).len() ==> detailed.contains(
                #[trigger] crate::compose::leftovers(detailed, entries, n)[i],
            ),
    decreases n,
{
    if n > 0 {
        lemma_leftovers(detailed, entries, (n - 1) as nat);
        let before = crate::compose::leftovers(detailed, entries, (n - 1) as nat);
        let after = crate::compose::leftovers(detailed, entries, n);
        assert forall|i: int| 0 <= i < after.len() implies detailed.contains(
            #[trigger] after[i],
        ) by {
            if i < before.len() {
                assert(after[i] == before[i]);
            } else {
                assert(after[i] == detailed[n - 1]);
            }
        }
    }
}

/// The age gate can be asked about every composed extension record, whatever the history held, and
/// the record has no more versions than are kept of the history and detailed.
pub proof fn composed_extensions_can_be_gated(
    extension: JsonValue,
    results: Seq<GallerySkeletonWireResult>,
    package: Seq<char>,
    base_url: Seq<char>,
    repo_key: Seq<char>,
    flags: u32,
)
    requires
        crate::compose::composed_extension(
            extension,
            crate::compose::kept_history(crate::skeleton::result_entries(results, package)),
            base_url,
            repo_key,
            flags,
        ) is Some,
    ensures
        ({
            let kept = crate::compose::kept_history(
                crate::skeleton::result_entries(results, package),
            );
            let composed = crate::compose::composed_extension(
                extension,
                kept,
                base_url,
                repo_key,
                flags,
            )->Some_0;
            &&& crate::gate::gateable(composed)
            &&& crate::response::identity_of(composed) == crate::response::identity_of(extension)
            &&& composed.list_at("versions"@)->Some_0.len() <= kept.len()
                + crate::compose::detailed_of(extension).len()
        }),
{
    reveal_strlit("versions");
    reveal_strlit("publisher");
    reveal_strlit("extensionName");
    assert("versions"@.len() == 8);
    assert("publisher"@.len() == 9);
    assert("extensionName"@.len() == 13);
    let entries = crate::compose::kept_history(crate::skeleton::result_entries(results, package));
    let detailed = crate::compose::detailed_of(extension);
    let (publisher, name) = crate::response::identity_of(extension)->Some_0;
    let composed = crate::compose::composed_extension(
        extension,
        entries,
        base_url,
        repo_key,
        flags,
    )->Some_0;
    assert(composed.get("publisher"@) == extension.get("publisher"@));
    assert(composed.get("extensionName"@) == extension.get("extensionName"@));
    let merged = crate::compose::merged(
        entries,
        detailed,
        base_url,
        repo_key,
        publisher,
        name,
        flags,
    );
    let leftovers = crate::compose::leftovers(detailed, entries, detailed.len());
    let records = merged + leftovers;
    let versions = crate::compose::sorted_records(records);
    lemma_leftovers(detailed, entries, detailed.len());
    crate::compose::sorted_records_are_newest_first(records);
    assert(composed.list_at("versions"@) == Some(versions));
    assert forall|i: int| 0 <= i < versions.len() implies crate::response::version_coordinate(
        #[trigger] versions[i],
    ) is Some by {
        assert(records.contains(versions[i]));
        let k = choose|k: int| 0 <= k < records.len() && records[k] == versions[i];
        if k < merged.len() {
            lemma_kept_are_safe(results, package, k);
            crate::compose::merged_records_keep_their_coordinate(
                entries,
                k,
                detailed,
                base_url,
                repo_key,
                publisher,
                name,
                flags,
            );
            assert(records[k] == merged[k]);
        } else {
            assert(records[k] == leftovers[k - merged.len()]);
            assert(detailed.contains(records[k]));
            let d = choose|d: int| 0 <= d < detailed.len() && detailed[d] == records[k];
            assert(crate::response::version_coordinate(detailed[d]) is Some);
        }
    }
}

} // verus!
