//! Laws on the age gate: what it takes from a document, and that it takes nothing else.

use vstd::prelude::*;

use crate::error::GalleryError;
use crate::json::JsonValue;

verus! {

/// The version records whose coordinate is not among `blocked`.
pub open spec fn unnamed_in(blocked: Seq<Seq<char>>) -> spec_fn(JsonValue) -> bool {
    |version: JsonValue|
        match crate::response::version_coordinate(version) {
            Some(coordinate) => !blocked.contains(coordinate),
            None => false,
        }
}

/// The extension records that have a version.
pub open spec fn non_empty() -> spec_fn(JsonValue) -> bool {
    |extension: JsonValue|
        match extension.list_at("versions"@) {
            Some(versions) => versions.len() > 0,
            None => false,
        }
}

proof fn lemma_allowed_is_filter(versions: Seq<JsonValue>, blocked: Seq<Seq<char>>)
    ensures
        crate::gate::allowed(versions, blocked) == versions.filter(unnamed_in(blocked)),
    decreases versions.len(),
{
    reveal(Seq::filter);
    if versions.len() > 0 {
        lemma_allowed_is_filter(versions.drop_last(), blocked);
    }
}

proof fn lemma_with_versions_is_filter(extensions: Seq<JsonValue>)
    ensures
        crate::gate::with_versions(extensions) == extensions.filter(non_empty()),
    decreases extensions.len(),
{
    reveal(Seq::filter);
    if extensions.len() > 0 {
        lemma_with_versions_is_filter(extensions.drop_last());
    }
}

/// With nothing withheld, all version records with a coordinate are left.
proof fn lemma_none_blocked(versions: Seq<JsonValue>, blocked: Seq<Seq<char>>)
    requires
        blocked.len() == 0,
        crate::gate::all_coordinates(versions),
    ensures
        versions.filter(unnamed_in(blocked)) == versions,
    decreases versions.len(),
{
    reveal(Seq::filter);
    if versions.len() > 0 {
        let front = versions.drop_last();
        assert(crate::gate::all_coordinates(front)) by {
            assert forall|i: int| 0 <= i < front.len() implies crate::response::version_coordinate(
                #[trigger] front[i],
            ) is Some by {
                assert(versions[i] == front[i]);
            }
        }
        lemma_none_blocked(front, blocked);
        assert(crate::response::version_coordinate(versions[versions.len() - 1]) is Some);
        assert(versions.filter(unnamed_in(blocked)) =~= versions);
    } else {
        assert(versions.filter(unnamed_in(blocked)) =~= versions);
    }
}

/// The age gate takes from an extension record exactly the versions that it names: every other
/// version is left, in its place among the others, and every other member of the record too. It
/// can be asked about a record with an identity, and with a list of versions that all have a
/// coordinate; of any other record, nothing is served.
pub proof fn only_named_versions_are_taken(extension: JsonValue, blocked: Seq<Seq<char>>)
    ensures
        match extension.list_at("versions"@) {
            Some(versions) => if crate::response::identity_of(extension) is Some && (forall|i: int|
                0 <= i < versions.len() ==> crate::response::version_coordinate(
                    #[trigger] versions[i],
                ) is Some) {
                match crate::gate::gated_extension(extension, blocked) {
                    Some(after) => {
                        &&& after.list_at("versions"@) == Some(versions.filter(unnamed_in(blocked)))
                        &&& forall|key: Seq<char>|
                            key != "versions"@ ==> #[trigger] after.get(key) == extension.get(key)
                    },
                    None => false,
                }
            } else {
                crate::gate::gated_extension(extension, blocked) is None
            },
            None => crate::gate::gated_extension(extension, blocked) is None,
        },
{
    if let Some(versions) = extension.list_at("versions"@) {
        lemma_allowed_is_filter(versions, blocked);
        if blocked.len() == 0 && crate::gate::all_coordinates(versions) {
            lemma_none_blocked(versions, blocked);
        }
    }
}

/// Whether `after` is `before` with `removed` taken off it, where it is a count of all matching
/// extensions; else it is as it was.
pub open spec fn count_less(before: JsonValue, after: JsonValue, removed: nat) -> bool {
    if before.text_at("name"@) == Some("TotalCount"@) && before.get("count"@) is Some
        && before.get("count"@)->Some_0.as_u64() is Some {
        let count = before.get("count"@)->Some_0.as_u64()->Some_0;
        &&& after.get("count"@) == Some(
            JsonValue::Number(
                crate::json::unsigned_number(
                    if count >= removed {
                        (count - removed) as u64
                    } else {
                        0
                    },
                ),
            ),
        )
        &&& forall|key: Seq<char>|
            key != "count"@ ==> #[trigger] after.get(key) == before.get(key)
    } else {
        after == before
    }
}

/// Whether `after` is `before` with `removed` taken off its counts, where it is about counts; else
/// it is as it was.
pub open spec fn counts_less(before: JsonValue, after: JsonValue, removed: nat) -> bool {
    if before.text_at("metadataType"@) == Some("ResultCount"@) && before.list_at(
        "metadataItems"@,
    ) is Some {
        let items = before.list_at("metadataItems"@)->Some_0;
        &&& match after.list_at("metadataItems"@) {
            Some(kept) => {
                &&& kept.len() == items.len()
                &&& forall|i: int|
                    0 <= i < items.len() ==> count_less(items[i], #[trigger] kept[i], removed)
            },
            None => false,
        }
        &&& forall|key: Seq<char>|
            key != "metadataItems"@ ==> #[trigger] after.get(key) == before.get(key)
    } else {
        after == before
    }
}

/// Every count of all matching extensions is less by what was removed, and not below zero. All
/// else in a result record is as it was, and a record without counts stays without.
pub proof fn every_count_is_less(result: JsonValue, removed: nat)
    ensures
        ({
            let after = crate::envelope::reconciled(result, removed);
            &&& forall|key: Seq<char>|
                key != "resultMetadata"@ ==> #[trigger] after.get(key) == result.get(key)
            &&& match result.list_at("resultMetadata"@) {
                Some(entries) => match after.list_at("resultMetadata"@) {
                    Some(kept) => {
                        &&& kept.len() == entries.len()
                        &&& forall|i: int|
                            0 <= i < entries.len() ==> counts_less(
                                entries[i],
                                #[trigger] kept[i],
                                removed,
                            )
                    },
                    None => false,
                },
                None => after == result,
            }
        }),
{
    reveal_strlit("count");
    reveal_strlit("name");
    reveal_strlit("metadataType");
    reveal_strlit("metadataItems");
    assert("count"@.len() == 5);
    assert("name"@.len() == 4);
    assert("metadataType"@.len() == 12);
    assert("metadataItems"@.len() == 13);
    if let Some(entries) = result.list_at("resultMetadata"@) {
        let after = crate::envelope::reconciled(result, removed);
        let change = crate::envelope::entry_change(removed);
        let kept = after.list_at("resultMetadata"@)->Some_0;
        assert(kept == crate::envelope::map_each(entries, change));
        assert forall|i: int| 0 <= i < entries.len() implies counts_less(
            entries[i],
            #[trigger] kept[i],
            removed,
        ) by {
            let before = entries[i];
            assert(kept[i] == crate::envelope::reconciled_entry(before, removed));
            if let Some(items) = before.list_at("metadataItems"@) {
                if before.text_at("metadataType"@) == Some("ResultCount"@) {
                    let inner = crate::envelope::item_change(removed);
                    let left = kept[i].list_at("metadataItems"@)->Some_0;
                    assert(left == crate::envelope::map_each(items, inner));
                    assert forall|j: int| 0 <= j < items.len() implies count_less(
                        items[j],
                        #[trigger] left[j],
                        removed,
                    ) by {
                        assert(left[j] == crate::envelope::reconciled_item(items[j], removed));
                    }
                }
            }
        }
    }
}

/// The extension records of a list of result records, one list after another.
pub open spec fn all_extensions(results: Seq<JsonValue>) -> Seq<JsonValue>
    decreases results.len(),
{
    if results.len() == 0 {
        Seq::empty()
    } else {
        all_extensions(results.drop_last()) + results.last().list_at("extensions"@)->Some_0
    }
}

/// Whether every result record has a list of extension records.
pub open spec fn all_lists(results: Seq<JsonValue>) -> bool {
    forall|i: int|
        0 <= i < results.len() ==> (#[trigger] results[i]).list_at("extensions"@) is Some
}

/// The extension records, each without what the answer for it withholds.
pub open spec fn each_gated(
    extensions: Seq<JsonValue>,
    verdicts: Seq<Seq<Seq<char>>>,
) -> Seq<JsonValue> {
    Seq::new(
        extensions.len(),
        |i: int| crate::gate::gated_extension(extensions[i], verdicts[i])->Some_0,
    )
}

/// Of a result record, the extension records that have a version left are served, all of them and
/// in their order; as many as are gone come off its counts; all else is as it was.
pub proof fn results_keep_what_has_a_version(result: JsonValue, verdicts: Seq<Seq<Seq<char>>>)
    requires
        crate::gate::gated_result(result, verdicts) is Some,
    ensures
        ({
            let after = crate::gate::gated_result(result, verdicts)->Some_0;
            let extensions = result.list_at("extensions"@)->Some_0;
            let kept = each_gated(extensions, verdicts).filter(non_empty());
            &&& result.list_at("extensions"@) is Some
            &&& kept.len() <= extensions.len()
            &&& after.list_at("extensions"@) == Some(kept)
            &&& forall|key: Seq<char>|
                key != "extensions"@ && key != "resultMetadata"@ ==> #[trigger] after.get(key)
                    == result.get(key)
            &&& after.get("resultMetadata"@) == crate::envelope::reconciled(
                result,
                (extensions.len() - kept.len()) as nat,
            ).get("resultMetadata"@)
        }),
{
    reveal_strlit("extensions");
    reveal_strlit("resultMetadata");
    assert("extensions"@.len() == 10);
    assert("resultMetadata"@.len() == 14);
    let extensions = result.list_at("extensions"@)->Some_0;
    let gated = crate::gate::gated_extensions(extensions, verdicts)->Some_0;
    assert(gated =~= each_gated(extensions, verdicts));
    lemma_with_versions_is_filter(gated);
    gated.lemma_filter_len(non_empty());
}

/// The extension records of the first result come first.
pub proof fn lemma_flat_front(results: Seq<JsonValue>)
    requires
        results.len() > 0,
    ensures
        all_extensions(results) == results[0].list_at("extensions"@)->Some_0 + all_extensions(
            results.drop_first(),
        ),
    decreases results.len(),
{
    if results.len() > 1 {
        lemma_flat_front(results.drop_last());
        assert(results.drop_last().drop_first() =~= results.drop_first().drop_last());
        assert(all_extensions(results) =~= results[0].list_at("extensions"@)->Some_0
            + all_extensions(results.drop_first()));
    } else {
        assert(results.drop_last() =~= Seq::empty());
        assert(results.drop_first() =~= Seq::empty());
        assert(all_extensions(results) =~= results[0].list_at("extensions"@)->Some_0
            + all_extensions(results.drop_first()));
    }
}

/// The age gate is asked about the extension records of a document one after another, and about
/// all of them.
pub proof fn every_extension_is_asked_about(results: Seq<JsonValue>, k: nat)
    requires
        all_lists(results),
    ensures
        crate::gate::extension_at(results, k) == Ok::<Option<JsonValue>, GalleryError>(
            if k < all_extensions(results).len() {
                Some(all_extensions(results)[k as int])
            } else {
                None
            },
        ),
    decreases results.len(),
{
    if results.len() > 0 {
        lemma_flat_front(results);
        let n = results[0].list_at("extensions"@)->Some_0.len();
        let rest = results.drop_first();
        assert(results[0].list_at("extensions"@) is Some);
        assert(all_lists(rest)) by {
            assert forall|i: int| 0 <= i < rest.len() implies (#[trigger] rest[i]).list_at(
                "extensions"@,
            ) is Some by {
                assert(results[i + 1] == rest[i]);
            }
        }
        if k >= n {
            every_extension_is_asked_about(rest, (k - n) as nat);
        }
    }
}

/// What is left of a document is what is left of each of its extension records, one after another:
/// no record that has a version left is lost, and none is served in another's place.
pub proof fn documents_keep_what_has_a_version(
    results: Seq<JsonValue>,
    verdicts: Seq<Seq<Seq<char>>>,
)
    requires
        crate::gate::gated_results(results, verdicts) is Ok,
    ensures
        ({
            let gated = crate::gate::gated_results(results, verdicts)->Ok_0;
            &&& all_lists(results)
            &&& all_lists(gated)
            &&& gated.len() == results.len()
            &&& all_extensions(results).len() <= verdicts.len()
            &&& all_extensions(gated) == each_gated(all_extensions(results), verdicts).filter(
                non_empty(),
            )
        }),
    decreases results.len(),
{
    let gated = crate::gate::gated_results(results, verdicts)->Ok_0;
    if results.len() == 0 {
        assert(all_extensions(results) =~= Seq::empty());
        assert(each_gated(all_extensions(results), verdicts) =~= Seq::empty());
        reveal(Seq::filter);
    } else {
        let extensions = results[0].list_at("extensions"@)->Some_0;
        let n = extensions.len() as int;
        let rest = results.drop_first();
        let mine = verdicts.take(n);
        let later = verdicts.skip(n);
        let first = crate::gate::gated_result(results[0], mine)->Some_0;
        let others = crate::gate::gated_results(rest, later)->Ok_0;
        assert(gated =~= seq![first] + others);
        assert(gated.drop_first() =~= others);
        documents_keep_what_has_a_version(rest, later);
        results_keep_what_has_a_version(results[0], mine);
        lemma_flat_front(results);
        lemma_flat_front(gated);
        let left = each_gated(extensions, mine);
        let right = each_gated(all_extensions(rest), later);
        assert(each_gated(all_extensions(results), verdicts) =~= left + right) by {
            assert forall|i: int| 0 <= i < all_extensions(results).len() implies #[trigger]
            each_gated(all_extensions(results), verdicts)[i] == (left + right)[i] by {
                if i < n {
                    assert(mine[i] == verdicts[i]);
                } else {
                    assert(later[i - n] == verdicts[i]);
                }
            }
        }
        Seq::filter_distributes_over_add(left, right, non_empty());
        assert forall|i: int| 0 <= i < results.len() implies (#[trigger] results[i]).list_at(
            "extensions"@,
        ) is Some by {
            if i > 0 {
                assert(rest[i - 1] == results[i]);
            }
        }
        assert forall|i: int| 0 <= i < gated.len() implies (#[trigger] gated[i]).list_at(
            "extensions"@,
        ) is Some by {
            if i > 0 {
                assert(others[i - 1] == gated[i]);
            }
        }
    }
}

/// Every result record of a document is gated by the answers for its own extension records, which
/// stand behind those for the records of the results before it.
pub proof fn results_are_gated_by_their_own_answers(
    results: Seq<JsonValue>,
    verdicts: Seq<Seq<Seq<char>>>,
    i: int,
)
    requires
        crate::gate::gated_results(results, verdicts) is Ok,
        0 <= i < results.len(),
    ensures
        ({
            let from = all_extensions(results.take(i)).len() as int;
            let count = results[i].list_at("extensions"@)->Some_0.len() as int;
            &&& crate::gate::gated_results(results, verdicts)->Ok_0.len() == results.len()
            &&& from + count <= verdicts.len()
            &&& crate::gate::gated_result(results[i], verdicts.subrange(from, from + count))
                == Some(crate::gate::gated_results(results, verdicts)->Ok_0[i])
        }),
    decreases results.len(),
{
    documents_keep_what_has_a_version(results, verdicts);
    let n = results[0].list_at("extensions"@)->Some_0.len() as int;
    let rest = results.drop_first();
    let later = verdicts.skip(n);
    let gated = crate::gate::gated_results(results, verdicts)->Ok_0;
    let others = crate::gate::gated_results(rest, later)->Ok_0;
    assert(gated =~= seq![gated[0]] + others);
    if i == 0 {
        assert(results.take(0) =~= Seq::empty());
        assert(verdicts.subrange(0, n) =~= verdicts.take(n));
    } else {
        results_are_gated_by_their_own_answers(rest, later, i - 1);
        let before = results.take(i);
        lemma_flat_front(before);
        assert(before.drop_first() =~= rest.take(i - 1));
        assert(before[0] == results[0]);
        let from = all_extensions(rest.take(i - 1)).len() as int;
        let count = results[i].list_at("extensions"@)->Some_0.len() as int;
        assert(rest[i - 1] == results[i]);
        assert(later.subrange(from, from + count) =~= verdicts.subrange(
            n + from,
            n + from + count,
        ));
        assert(gated[i] == others[i - 1]);
    }
}

/// A document is gated where every result has a list of extension records, the age gate can be
/// asked about each of them, and it has answered for each of them; and nothing but its results
/// is changed.
pub proof fn documents_are_gated_once_answered(
    response: JsonValue,
    verdicts: Seq<Seq<Seq<char>>>,
)
    ensures
        match response.list_at("results"@) {
            Some(results) => match crate::gate::gated_response(response, verdicts) {
                Ok(gated) => {
                    &&& all_lists(results)
                    &&& all_extensions(results).len() <= verdicts.len()
                    &&& gated.list_at("results"@) is Some
                    &&& gated.list_at("results"@)->Some_0.len() == results.len()
                    &&& forall|key: Seq<char>|
                        key != "results"@ ==> #[trigger] gated.get(key) == response.get(key)
                },
                Err(_) => !all_lists(results) || all_extensions(results).len() > verdicts.len()
                    || exists|k: int|
                    0 <= k < all_extensions(results).len() && !crate::gate::gateable(
                        #[trigger] all_extensions(results)[k],
                    ),
            },
            None => crate::gate::gated_response(response, verdicts) == Err::<
                JsonValue,
                GalleryError,
            >(GalleryError::InvalidResponse),
        },
{
    if let Some(results) = response.list_at("results"@) {
        if crate::gate::gated_results(results, verdicts) is Ok {
            documents_keep_what_has_a_version(results, verdicts);
        } else if all_lists(results) && all_extensions(results).len() <= verdicts.len() && !(exists|
            k: int,
        |
            0 <= k < all_extensions(results).len() && !crate::gate::gateable(
                #[trigger] all_extensions(results)[k],
            )) {
            let n = all_extensions(results).len();
            assert forall|k: nat| k < n implies (match #[trigger] crate::gate::extension_at(
                results,
                k,
            ) {
                Ok(Some(extension)) => crate::gate::gateable(extension),
                _ => false,
            }) by {
                every_extension_is_asked_about(results, k);
                assert(crate::gate::gateable(all_extensions(results)[k as int]));
            }
            every_extension_is_asked_about(results, n);
            crate::gate::a_gate_that_answered_is_applied(results, verdicts, n);
        }
    }
}

/// A document that is as it should be is refused only where the age gate has not answered for all
/// of it, and is answered that the age gate is not there; what is wrong with any other is that it
/// is invalid, or that again.
pub proof fn unanswered_documents_are_withheld(
    results: Seq<JsonValue>,
    verdicts: Seq<Seq<Seq<char>>>,
)
    ensures
        match crate::gate::gated_results(results, verdicts) {
            Ok(_) => true,
            Err(error) => {
                &&& error == GalleryError::InvalidResponse || error
                    == GalleryError::MetadataGateUnavailable
                &&& all_lists(results) && (forall|k: int|
                    0 <= k < all_extensions(results).len() ==> crate::gate::gateable(
                        #[trigger] all_extensions(results)[k],
                    )) ==> error == GalleryError::MetadataGateUnavailable
            },
        },
    decreases results.len(),
{
    if results.len() > 0 {
        if let Some(extensions) = results[0].list_at("extensions"@) {
            let n = extensions.len() as int;
            let rest = results.drop_first();
            lemma_flat_front(results);
            let all = all_extensions(results);
            let sound = forall|k: int|
                0 <= k < all.len() ==> crate::gate::gateable(#[trigger] all[k]);
            unanswered_documents_are_withheld(rest, verdicts.skip(n));
            if all_lists(results) && sound {
                assert forall|i: int| 0 <= i < rest.len() implies (#[trigger] rest[i]).list_at(
                    "extensions"@,
                ) is Some by {
                    assert(results[i + 1] == rest[i]);
                }
                assert forall|k: int|
                    0 <= k < all_extensions(rest).len() implies crate::gate::gateable(
                    #[trigger] all_extensions(rest)[k],
                ) by {
                    assert(all[n + k] == all_extensions(rest)[k]);
                }
                assert forall|i: int| 0 <= i < n implies crate::gate::gateable(
                    #[trigger] extensions[i],
                ) by {
                    assert(all[i] == extensions[i]);
                }
            }
        } else if all_lists(results) {
            assert(results[0].list_at("extensions"@) is Some);
        }
    }
}

/// The age gate is told of every version of an extension record, in its place: its coordinate and
/// its date.
pub proof fn every_version_is_asked_about(versions: Seq<JsonValue>)
    ensures
        crate::gate::candidates_of(versions).len() == versions.len(),
        forall|i: int|
            0 <= i < versions.len() && crate::response::version_coordinate(versions[i]) is Some
                ==> {
                &&& Some((#[trigger] crate::gate::candidates_of(versions)[i]).0)
                    == crate::response::version_coordinate(versions[i])
                &&& crate::gate::candidates_of(versions)[i].1 == (match versions[i].text_at(
                    "lastUpdated"@,
                ) {
                    Some(text) => crate::time::rfc3339_instant(text),
                    None => None,
                })
            },
{
}

} // verus!
