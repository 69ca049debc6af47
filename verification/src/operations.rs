//! Laws on the operations: what comes of a history, a document, a query or an artifact, said of
//! what goes in and what comes out.

use vstd::prelude::*;

use crate::catalog::{
    backfill, is_exempt_format, is_sidecar_path, project, register_artifact, ArtifactFacts,
    BackfillReport, CatalogEntry, CatalogRegistration, StoredArtifact,
};
use crate::compose::{
    compose_gallery_extension, compose_gallery_query, composition_subject, detail_query,
    gallery_latest_walk_back, skeleton_query, sort_gallery_versions_newest_first,
    walk_back_candidates,
};
use crate::coordinate::{
    is_safe_gallery_segment, is_safe_target_platform, normal_target_platform,
    validate_gallery_request_segment, validate_gallery_response_segment, validate_target_platform,
    vscode_age_gate_package, vscode_age_gate_version,
};
use crate::envelope::{
    first_extension_of, first_metadata_of, gallery_results_envelope, reconcile_gallery_result_count,
};
use crate::error::GalleryError;
use crate::gate::{any_withheld, apply_gate, gate_batch, next_gate_batch, GateBatch, GateCandidate};
use crate::json::{Json, JsonValue};
use crate::manifest::build_gallery_manifest;
use crate::query::{
    gallery_composable_criteria, gallery_composed_identity_limit, gallery_criterion_json,
    gallery_query_qualifiers, gallery_query_with_flags, gallery_response_identities,
    gallery_single_id_query, GalleryComposition, GalleryCriterion, GalleryQueryCriterion,
    GalleryQueryRequest,
};
use crate::repository::RequestBaseUrl;
use crate::response::{
    gallery_extension_identity, gallery_last_updated, gallery_version_coordinate,
    rewrite_extension, rewrite_gallery_asset_urls,
};
use crate::skeleton::{
    gallery_skeleton_versions, select_bounded_gallery_versions, synthesize_gallery_version,
    GallerySkeletonVersion, GallerySkeletonWireDocument, SkeletonEntry,
};
use crate::time::PublishTime;
use crate::urls::{
    build_extension_id, build_vscode_artifact_path, build_vscode_download_url,
    build_vscode_storage_key, build_vsix_download_filename, build_vsix_filename,
    gallery_asset_base_url, gallery_base_url, gallery_item,
};

verus! {

/// What is said of values is said of what they hold, member by member.
pub proof fn values_are_what_they_hold(
    version: GallerySkeletonVersion,
    candidate: GateCandidate,
    criterion: GalleryCriterion,
    wanted: GalleryQueryCriterion,
    facts: ArtifactFacts<'_>,
    entry: CatalogEntry,
)
    ensures
        version@.version == version.version@,
        version@.target_platform == version.target_platform@,
        version@.last_updated is Some <==> version.last_updated is Some,
        version.last_updated is Some ==> version@.last_updated == Some(
            version.last_updated->Some_0@,
        ),
        version@.prerelease == version.prerelease,
        version@.engine is Some <==> version.engine is Some,
        version.engine is Some ==> version@.engine == Some(version.engine->Some_0@),
        candidate@.0 == candidate.coordinate@,
        candidate@.1 is Some <==> candidate.published_at is Some,
        candidate.published_at is Some ==> candidate@.1 == Some(candidate.published_at->Some_0@),
        criterion@ == (criterion.filter_type, criterion.value@),
        wanted@.0 == wanted.filter_type,
        wanted.value is Some ==> wanted@.1 == wanted.value->Some_0@,
        wanted.value is None ==> wanted@.1.len() == 0,
        facts@.format == facts.format@,
        facts@.metadata == facts.metadata@,
        facts@.name == facts.name@,
        facts@.version is Some <==> facts.version is Some,
        facts.version is Some ==> facts@.version == Some(facts.version->Some_0@),
        facts@.path == facts.path@,
        entry@.name == entry.name@,
        entry@.version == entry.version@,
        entry@.description is Some <==> entry.description is Some,
        entry.description is Some ==> entry@.description == Some(entry.description->Some_0@),
{
}

/// A built record lists the four files of its build where files are asked for, has the version and
/// the channel of its entry, and refers to its root where references are asked for.
pub proof fn versions_are_built_whole(
    version: &GallerySkeletonVersion,
    asset_base: &str,
    flags: u32,
    record: Json,
)
    requires
        call_ensures(synthesize_gallery_version, (version, asset_base, flags), record),
    ensures
        crate::records::lists_files(record@, asset_base@, flags),
        record@.get("version"@) == Some(JsonValue::Text(version.version@)),
        flags & 128u32 != 0 ==> record@.get("assetUri"@) == Some(JsonValue::Text(asset_base@)),
        record@ == crate::skeleton::built_version(version@, asset_base@, flags),
{
    crate::records::built_versions_can_be_installed(version@, asset_base@, flags);
    crate::records::built_versions_say_what_the_history_says(version@, asset_base@, flags);
}

/// A history is read of all the results of an answer: of two answers one behind the other, what is
/// read of the first comes first and what is read of the second behind it.
pub proof fn histories_are_read_whole(
    whole: GallerySkeletonWireDocument,
    first: GallerySkeletonWireDocument,
    second: GallerySkeletonWireDocument,
    package: &str,
    of_whole: Vec<GallerySkeletonVersion>,
    of_first: Vec<GallerySkeletonVersion>,
    of_second: Vec<GallerySkeletonVersion>,
)
    requires
        whole.results@ == first.results@ + second.results@,
        call_ensures(gallery_skeleton_versions, (whole, package), of_whole),
        call_ensures(gallery_skeleton_versions, (first, package), of_first),
        call_ensures(gallery_skeleton_versions, (second, package), of_second),
    ensures
        crate::skeleton::skeleton_views(of_whole@) == crate::skeleton::skeleton_views(of_first@)
            + crate::skeleton::skeleton_views(of_second@),
{
    if first.results@.len() > 0 {
        crate::reading::histories_are_read_result_by_result(
            first.results@,
            second.results@,
            first.results@[0],
            package@,
        );
    } else {
        assert(first.results@ + second.results@ =~= second.results@);
        assert(crate::skeleton::skeleton_views(of_first@) =~= Seq::empty());
        assert(crate::skeleton::skeleton_views(of_first@) + crate::skeleton::skeleton_views(
            of_second@,
        ) =~= crate::skeleton::skeleton_views(of_second@));
    }
}

/// A version that stands alone in an answer, in the extension that is asked for, is what is read of
/// it: its name, its platform, its date, and its channel and engine wherever they stand among its
/// properties.
pub proof fn versions_are_read_with_their_properties(
    document: GallerySkeletonWireDocument,
    package: &str,
    versions: Vec<GallerySkeletonVersion>,
    i: int,
)
    requires
        call_ensures(gallery_skeleton_versions, (document, package), versions),
        document.results@.len() == 1,
        document.results@[0].extensions@.len() == 1,
        document.results@[0].extensions@[0].versions@.len() == 1,
    ensures
        ({
            let extension = document.results@[0].extensions@[0];
            let wire = extension.versions@[0];
            let publisher = match extension.publisher {
                Some(publisher) => crate::reading::text_of(publisher.publisher_name),
                None => Seq::empty(),
            };
            let id = publisher + "."@ + crate::reading::text_of(extension.extension_name);
            let platform = crate::coordinate::platform_of(
                match wire.target_platform {
                    Some(platform) => Some(platform@),
                    None => None,
                },
            );
            if crate::text::lowered(id) == package@ && crate::coordinate::safe_segment(
                wire.version@,
            ) && crate::coordinate::safe_platform(platform) {
                &&& versions@.len() == 1
                &&& versions@[0].version@ == wire.version@
                &&& versions@[0].target_platform@ == platform
                &&& match wire.properties {
                    Some(properties) => {
                        &&& crate::reading::last_property(
                            properties@,
                            "Microsoft.VisualStudio.Code.PreRelease"@,
                            i,
                        ) ==> versions@[0].prerelease == (match properties@[i].value {
                            Some(value) => value@ == "true"@,
                            None => false,
                        })
                        &&& crate::reading::no_property(
                            properties@,
                            "Microsoft.VisualStudio.Code.PreRelease"@,
                        ) ==> !versions@[0].prerelease
                        &&& crate::reading::last_property(
                            properties@,
                            "Microsoft.VisualStudio.Code.Engine"@,
                            i,
                        ) ==> (match properties@[i].value {
                            Some(value) => match versions@[0].engine {
                                Some(engine) => engine@ == value@,
                                None => false,
                            },
                            None => versions@[0].engine is None,
                        })
                        &&& crate::reading::no_property(
                            properties@,
                            "Microsoft.VisualStudio.Code.Engine"@,
                        ) ==> versions@[0].engine is None
                    },
                    None => !versions@[0].prerelease && versions@[0].engine is None,
                }
            } else {
                versions@.len() == 0
            }
        }),
{
    let result = document.results@[0];
    let extension = result.extensions@[0];
    let wire = extension.versions@[0];
    let views = crate::skeleton::skeleton_views(versions@);
    assert(document.results@ =~= seq![result]);
    assert(result.extensions@ =~= seq![extension]);
    assert(extension.versions@ =~= seq![wire]);
    crate::reading::histories_are_read_result_by_result(
        seq![result],
        Seq::empty(),
        result,
        package@,
    );
    crate::reading::histories_are_read_extension_by_extension(
        seq![extension],
        Seq::empty(),
        extension,
        package@,
    );
    crate::reading::histories_are_read_version_by_version(seq![wire], Seq::empty(), wire);
    crate::reading::versions_are_read_as_they_are(wire);
    assert(views.len() == versions@.len());
    if let Some(entry) = crate::skeleton::entry_of(wire) {
        crate::reading::properties_are_read_wherever_they_stand(wire, i);
        if views.len() == 1 {
            assert(views[0] == versions@[0]@);
        }
    }
}

/// Of each platform and release channel of a history, the thirty newest versions are kept.
pub proof fn the_newest_are_selected(
    versions: Vec<GallerySkeletonVersion>,
    selected: Vec<GallerySkeletonVersion>,
    platform: Seq<char>,
    prerelease: bool,
)
    requires
        call_ensures(select_bounded_gallery_versions, (versions,), selected),
    ensures
        ({
            let history = crate::skeleton::skeleton_views(versions@);
            let all = crate::reading::firsts(crate::skeleton::sorted_entries(history)).filter(
                crate::reading::in_channel(platform, prerelease),
            );
            crate::skeleton::skeleton_views(selected@).filter(
                crate::reading::in_channel(platform, prerelease),
            ) == (if all.len() <= 30 {
                all
            } else {
                all.take(30)
            })
        }),
{
    crate::merging::the_thirty_newest_are_kept(
        crate::skeleton::skeleton_views(versions@),
        platform,
        prerelease,
    );
}

/// What the age gate withholds is taken from a document, and nothing else: what is left of its
/// extension records is each of them without the versions withheld from it, in their order, but for
/// those without any version.
pub proof fn documents_lose_what_is_withheld(
    response: Json,
    verdicts: &Vec<Vec<String>>,
    gated: Result<Json, GalleryError>,
)
    requires
        call_ensures(apply_gate, (response, verdicts), gated),
    ensures
        match response@.list_at("results"@) {
            Some(results) => {
                let records = crate::withheld::all_extensions(results);
                let answers = crate::gate::verdict_views(verdicts@);
                match gated {
                    Ok(gated) => {
                        &&& crate::withheld::all_lists(results)
                        &&& records.len() <= answers.len()
                        &&& match gated@.list_at("results"@) {
                            Some(kept) => {
                                &&& kept.len() == results.len()
                                &&& crate::withheld::all_extensions(kept)
                                    == crate::withheld::each_gated(records, answers).filter(
                                    crate::withheld::non_empty(),
                                )
                            },
                            None => false,
                        }
                        &&& forall|key: Seq<char>|
                            key != "results"@ ==> #[trigger] gated@.get(key) == response@.get(key)
                    },
                    Err(_) => !crate::withheld::all_lists(results) || records.len() > answers.len()
                        || exists|k: int|
                        0 <= k < records.len() && !crate::gate::gateable(#[trigger] records[k]),
                }
            },
            None => gated is Err && gated->Err_0 == GalleryError::InvalidResponse,
        },
{
    let answers = crate::gate::verdict_views(verdicts@);
    crate::withheld::documents_are_gated_once_answered(response@, answers);
    if let Some(results) = response@.list_at("results"@) {
        if crate::gate::gated_results(results, answers) is Ok {
            crate::withheld::documents_keep_what_has_a_version(results, answers);
        }
    }
}

/// Something is withheld exactly where an answer withholds a version.
pub proof fn answers_withhold_what_they_name(verdicts: &Vec<Vec<String>>, any: bool)
    requires
        call_ensures(any_withheld, (verdicts,), any),
    ensures
        any <==> exists|i: int| 0 <= i < verdicts@.len() && (#[trigger] verdicts@[i])@.len() > 0,
{
    let views = crate::gate::verdict_views(verdicts@);
    assert forall|i: int| 0 <= i < verdicts@.len() implies (#[trigger] views[i]).len()
        == verdicts@[i]@.len() by {}
    if any {
        let i = choose|i: int| 0 <= i < views.len() && (#[trigger] views[i]).len() > 0;
        assert(verdicts@[i]@.len() > 0);
    }
    if exists|i: int| 0 <= i < verdicts@.len() && (#[trigger] verdicts@[i])@.len() > 0 {
        let i = choose|i: int| 0 <= i < verdicts@.len() && (#[trigger] verdicts@[i])@.len() > 0;
        assert(views[i].len() > 0);
    }
}

/// Whether a batch asks about an extension record: under its name in small letters, with the
/// coordinate and the date of every version.
pub open spec fn asks_about(batch: GateBatch, extension: JsonValue) -> bool {
    match (crate::response::identity_of(extension), extension.list_at("versions"@)) {
        (Some((publisher, name)), Some(versions)) => {
            &&& batch.package@ == crate::text::lowered(publisher + seq!['.'] + name)
            &&& batch.candidates@.len() == versions.len()
            &&& forall|i: int|
                0 <= i < versions.len() ==> {
                    let candidate = #[trigger] batch.candidates@[i];
                    &&& crate::response::version_coordinate(versions[i]) == Some(
                        candidate.coordinate@,
                    )
                    &&& crate::time::time_view(candidate.published_at)
                        == crate::response::version_date(versions[i])
                }
        },
        _ => false,
    }
}

proof fn lemma_asks(batch: GateBatch, extension: JsonValue)
    requires
        crate::gate::gateable(extension),
        batch.package@ == crate::gate::package_at(extension),
        crate::gate::candidate_views(batch.candidates@) == crate::gate::candidates_of(
            extension.list_at("versions"@)->Some_0,
        ),
    ensures
        asks_about(batch, extension),
{
    crate::records::gated_records_are_known_by_name(extension);
    let versions = extension.list_at("versions"@)->Some_0;
    let views = crate::gate::candidate_views(batch.candidates@);
    assert(views.len() == batch.candidates@.len());
    assert forall|i: int| 0 <= i < versions.len() implies {
        let candidate = #[trigger] batch.candidates@[i];
        &&& crate::response::version_coordinate(versions[i]) == Some(candidate.coordinate@)
        &&& crate::time::time_view(candidate.published_at) == crate::response::version_date(
            versions[i],
        )
    } by {
        assert(views[i] == batch.candidates@[i]@);
        assert(crate::response::version_coordinate(versions[i]) is Some);
    }
}

/// The age gate is asked about an extension record under its name and with all its versions,
/// exactly where it can be.
pub proof fn records_are_asked_about_whole(
    extension: &Json,
    batch: Result<GateBatch, GalleryError>,
)
    requires
        call_ensures(gate_batch, (extension,), batch),
    ensures
        match batch {
            Ok(batch) => asks_about(batch, extension@),
            Err(error) => !crate::gate::gateable(extension@) && error
                == GalleryError::InvalidResponse,
        },
{
    if let Ok(batch) = batch {
        lemma_asks(batch, extension@);
    }
}

/// The age gate is asked about the records of a document one behind another, over all its results,
/// until it has answered for all of them.
pub proof fn the_next_record_is_asked_about(
    response: &Json,
    decided: usize,
    batch: Result<Option<GateBatch>, GalleryError>,
)
    requires
        call_ensures(next_gate_batch, (response, decided), batch),
        match response@.list_at("results"@) {
            Some(results) => crate::withheld::all_lists(results),
            None => true,
        },
    ensures
        match response@.list_at("results"@) {
            Some(results) => {
                let records = crate::withheld::all_extensions(results);
                if decided < records.len() {
                    match batch {
                        Ok(Some(batch)) => asks_about(batch, records[decided as int]),
                        Ok(None) => false,
                        Err(_) => !crate::gate::gateable(records[decided as int]),
                    }
                } else {
                    batch is Ok && batch->Ok_0 is None
                }
            },
            None => batch is Err && batch->Err_0 == GalleryError::InvalidResponse,
        },
{
    if let Some(results) = response@.list_at("results"@) {
        crate::withheld::every_extension_is_asked_about(results, decided as nat);
        let records = crate::withheld::all_extensions(results);
        if decided < records.len() {
            if let Ok(Some(batch)) = batch {
                lemma_asks(batch, records[decided as int]);
            }
        }
    }
}

/// An extension is composed of what it lists and of what is kept of its history, or refused.
pub proof fn extensions_are_composed_with_their_history(
    extension: Json,
    history: Vec<GallerySkeletonVersion>,
    base_url: &RequestBaseUrl,
    repo_key: &str,
    flags: u32,
    composed: Result<Json, GalleryError>,
)
    requires
        call_ensures(
            compose_gallery_extension,
            (extension, history, base_url, repo_key, flags),
            composed,
        ),
    ensures
        ({
            let listed = match extension@.get("versions"@) {
                Some(JsonValue::List(versions)) => versions,
                _ => Seq::empty(),
            };
            let kept = crate::compose::kept_history(
                crate::skeleton::skeleton_views(history@),
            );
            let versions = match crate::response::identity_of(extension@) {
                Some((publisher, name)) => crate::compose::composed_versions(
                    kept,
                    listed,
                    base_url.0@,
                    repo_key@,
                    publisher,
                    name,
                    flags,
                ),
                None => None,
            };
            match versions {
                Some(versions) => match composed {
                    Ok(after) => {
                        &&& after@.get("versions"@) == Some(JsonValue::List(versions))
                        &&& forall|key: Seq<char>|
                            key != "versions"@ ==> #[trigger] after@.get(key) == extension@.get(key)
                    },
                    Err(_) => false,
                },
                None => composed is Err && composed->Err_0 == GalleryError::InvalidResponse,
            }
        }),
{
    crate::merging::extensions_are_composed_of_their_versions(
        extension@,
        crate::compose::kept_history(crate::skeleton::skeleton_views(history@)),
        base_url.0@,
        repo_key@,
        flags,
    );
}

/// A page of composed extensions has one result, with those that the upstream knows in the client's
/// order, and the upstream's own metadata where there is some.
pub proof fn pages_are_put_together_in_order(
    composed: Vec<Option<Json>>,
    result_metadata: Option<Json>,
    page: Json,
)
    requires
        call_ensures(compose_gallery_query, (composed, result_metadata), page),
    ensures
        match page@.list_at("results"@) {
            Some(results) => {
                &&& results.len() == 1
                &&& results[0].get("extensions"@) == Some(
                    JsonValue::List(crate::compose::present(composed@)),
                )
                &&& match result_metadata {
                    Some(metadata) => results[0].get("resultMetadata"@) == Some(metadata@),
                    None => match results[0].get("resultMetadata"@) {
                        Some(metadata) => crate::records::counts_total(
                            metadata,
                            crate::compose::present(composed@).len(),
                        ),
                        None => false,
                    },
                }
            },
            None => false,
        },
{
    crate::records::envelopes_hold_every_record(
        crate::compose::present(composed@),
        crate::json::json_view_opt(result_metadata),
    );
}

/// The age gate is asked about every version that is kept of a history, in its place, under its
/// name and platform and with its date.
pub proof fn kept_versions_are_asked_about(
    history: Vec<GallerySkeletonVersion>,
    asked: (Vec<GallerySkeletonVersion>, Vec<GateCandidate>),
)
    requires
        call_ensures(walk_back_candidates, (history,), asked),
    ensures
        crate::skeleton::skeleton_views(asked.0@) == crate::compose::kept_history(
            crate::skeleton::skeleton_views(history@),
        ),
        asked.1@.len() == asked.0@.len(),
        forall|i: int|
            0 <= i < asked.1@.len() ==> {
                let candidate = #[trigger] asked.1@[i];
                &&& candidate.coordinate@ == asked.0@[i].version@ + seq!['@']
                    + crate::coordinate::platform_of(Some(asked.0@[i].target_platform@))
                &&& crate::time::time_view(candidate.published_at) == crate::time::time_view(
                    asked.0@[i].last_updated,
                )
            },
{
    reveal_strlit("@");
    assert("@"@ =~= seq!['@']);
    let entries = crate::skeleton::skeleton_views(asked.0@);
    let views = crate::gate::candidate_views(asked.1@);
    assert(views.len() == asked.1@.len());
    assert(entries.len() == asked.0@.len());
    assert forall|i: int| 0 <= i < asked.1@.len() implies {
        let candidate = #[trigger] asked.1@[i];
        &&& candidate.coordinate@ == asked.0@[i].version@ + seq!['@']
            + crate::coordinate::platform_of(Some(asked.0@[i].target_platform@))
        &&& crate::time::time_view(candidate.published_at) == crate::time::time_view(
            asked.0@[i].last_updated,
        )
    } by {
        assert(views[i] == asked.1@[i]@);
        assert(entries[i] == asked.0@[i]@);
    }
}

/// Walking back serves the first version left of each platform, or nothing where none is left.
pub proof fn older_versions_are_served_by_platform(
    extension: Json,
    skeleton: &Vec<GallerySkeletonVersion>,
    blocked: &Vec<String>,
    base_url: &RequestBaseUrl,
    repo_key: &str,
    found: Result<Option<Json>, GalleryError>,
)
    requires
        call_ensures(
            gallery_latest_walk_back,
            (extension, skeleton, blocked, base_url, repo_key),
            found,
        ),
        crate::response::identity_of(extension@) is Some,
    ensures
        ({
            let entries = crate::skeleton::skeleton_views(skeleton@);
            let left = crate::merging::items_at(
                entries,
                crate::merging::places(entries.len()).filter(
                    crate::merging::first_left(entries, crate::gate::verdict_view(blocked@)),
                ),
            );
            match found {
                Ok(Some(after)) => match after@.list_at("versions"@) {
                    Some(versions) => left.len() > 0 && versions.len() == left.len(),
                    None => false,
                },
                Ok(None) => left.len() == 0,
                Err(error) => {
                    &&& error == GalleryError::InvalidResponse
                    &&& exists|i: int|
                        0 <= i < left.len() && !(crate::coordinate::safe_segment(
                            (#[trigger] left[i]).version,
                        ) && crate::coordinate::safe_platform(left[i].target_platform))
                },
            }
        }),
        crate::compose::found_or_error(found) == crate::compose::walked_back(
            extension@,
            crate::skeleton::skeleton_views(skeleton@),
            crate::gate::verdict_view(blocked@),
            base_url.0@,
            repo_key@,
        ),
{
    crate::merging::walking_back_builds_what_is_served(
        extension@,
        crate::skeleton::skeleton_views(skeleton@),
        crate::gate::verdict_view(blocked@),
        base_url.0@,
        repo_key@,
    );
}

/// The latest versions of one extension are asked for with the client's own flags and the one for
/// latest versions; its history with the flags given. Both repeat every qualifier.
pub proof fn extensions_are_asked_for_one_by_one(
    identity: &GalleryCriterion,
    qualifiers: &Vec<GalleryCriterion>,
    flags: u32,
    detail: Vec<u8>,
    history: Vec<u8>,
    query: Json,
)
    requires
        call_ensures(detail_query, (identity, qualifiers, flags), detail),
        call_ensures(skeleton_query, (identity, qualifiers, flags), history),
        call_ensures(gallery_single_id_query, (identity, qualifiers, flags), query),
    ensures
        crate::json::parsed_json(detail@) == Some(
            crate::query::single_id_query(
                (identity.filter_type, identity.value@),
                crate::query::criterion_views(qualifiers@),
                flags | 512u32,
            ),
        ),
        crate::json::parsed_json(history@) == Some(query@),
        query@ == crate::query::single_id_query(
            (identity.filter_type, identity.value@),
            crate::query::criterion_views(qualifiers@),
            flags,
        ),
        crate::query::criterion_views(qualifiers@).len() == qualifiers@.len(),
        forall|i: int|
            0 <= i < qualifiers@.len() ==> #[trigger] crate::query::criterion_views(qualifiers@)[i]
                == (qualifiers@[i].filter_type, qualifiers@[i].value@),
{
}

/// A criterion is written with its type and its value.
pub proof fn criteria_are_written_whole(criterion: &GalleryCriterion, json: Json)
    requires
        call_ensures(gallery_criterion_json, (criterion,), json),
    ensures
        crate::records::states_criterion(json@, (criterion.filter_type, criterion.value@)),
{
    reveal_strlit("filterType");
    reveal_strlit("value");
    assert("filterType"@.len() == 10);
    assert("value"@.len() == 5);
}

/// The history of a detailed record is asked for under its name in small letters, where it has one.
pub proof fn histories_are_asked_for_by_name(
    extension: &Json,
    package: Result<String, GalleryError>,
)
    requires
        call_ensures(composition_subject, (extension,), package),
    ensures
        match crate::response::identity_of(extension@) {
            Some((publisher, name)) => package is Ok && package->Ok_0@ == crate::text::lowered(
                publisher + seq!['.'] + name,
            ),
            None => package is Err && package->Err_0 == GalleryError::InvalidResponse,
        },
{
    crate::records::gated_records_are_known_by_name(extension@);
}

/// A query is composed of the extensions that it names, as many as a page holds, and of all its
/// qualifiers, up to eight; a page holds what the client wishes, from one to fifty.
pub proof fn queries_are_planned_as_asked(
    request: &GalleryQueryRequest,
    limit: usize,
    qualifiers: Option<Vec<GalleryCriterion>>,
    composition: Option<GalleryComposition>,
)
    requires
        call_ensures(gallery_composed_identity_limit, (request,), limit),
        call_ensures(gallery_query_qualifiers, (request,), qualifiers),
        call_ensures(gallery_composable_criteria, (request,), composition),
    ensures
        ({
            let criteria = crate::query::all_criteria(request.filters@);
            let named = crate::planning::each_once(criteria.filter(crate::planning::naming()));
            let narrowed = crate::planning::each_once(
                criteria.filter(crate::planning::narrowing()),
            );
            let wish = if request.filters@.len() > 0 {
                request.filters@[0].page_size
            } else {
                None
            };
            &&& 1 <= limit <= 50
            &&& wish is None ==> limit == 50
            &&& wish is Some && 1 <= wish->Some_0 <= 50 ==> limit == wish->Some_0
            &&& wish is Some && wish->Some_0 > 50 ==> limit == 50
            &&& match qualifiers {
                Some(qualifiers) => narrowed.len() <= 8 && crate::query::criterion_views(
                    qualifiers@,
                ) == narrowed,
                None => narrowed.len() > 8,
            }
            &&& match composition {
                Some(composition) => {
                    &&& crate::query::criterion_views(composition.qualifiers@) == narrowed
                    &&& crate::query::criterion_views(composition.identities@) == (
                    if named.len() <= limit {
                        named
                    } else {
                        named.take(limit as int)
                    })
                    &&& named.len() > 0
                    &&& request.flags & 1u32 != 0
                    &&& request.flags & 512u32 == 0
                },
                None => {
                    ||| request.flags & 1u32 == 0
                    ||| request.flags & 512u32 != 0
                    ||| named.len() == 0
                    ||| narrowed.len() > 8
                    ||| exists|i: int|
                        0 <= i < criteria.len() && !crate::planning::composable(
                            #[trigger] criteria[i],
                        )
                },
            }
        }),
{
    crate::planning::pages_hold_one_to_fifty(*request);
    crate::planning::named_extensions_are_composed(*request);
    crate::planning::criteria_are_taken_once_and_in_order(
        crate::query::all_criteria(request.filters@),
    );
}

/// The identities of a page are named as the page names them, and a query is reissued under the
/// flags given.
pub proof fn identities_and_flags_are_taken_over(
    response: &Json,
    limit: usize,
    identities: Result<Vec<GalleryCriterion>, GalleryError>,
    body: &[u8],
    flags: u32,
    reissued: Option<Vec<u8>>,
)
    requires
        call_ensures(gallery_response_identities, (response, limit), identities),
        call_ensures(gallery_query_with_flags, (body, flags), reissued),
    ensures
        match identities {
            Ok(identities) => crate::query::response_identities(response@, limit as nat) == Some(
                crate::query::criterion_views(identities@),
            ),
            Err(error) => error == GalleryError::InvalidResponse
                && crate::query::response_identities(response@, limit as nat) is None,
        },
        match crate::json::parsed_json(body@) {
            Some(document) => match reissued {
                Some(reissued) => document is Object && reissued@ == crate::json::written_json(
                    document.with(
                        "flags"@,
                        JsonValue::Number(crate::json::unsigned_number(flags as u64)),
                    ),
                ),
                None => !(document is Object),
            },
            None => reissued is None,
        },
{
    crate::planning::queries_are_reissued_under_other_flags(body@, flags);
}

/// The identity, the coordinate and the date of a record are read where it says them.
pub proof fn records_are_read_as_they_say(
    extension: &Json,
    identity: Option<(String, String, String)>,
    version: &Json,
    coordinate: Option<String>,
    date: Option<PublishTime>,
)
    requires
        call_ensures(gallery_extension_identity, (extension,), identity),
        call_ensures(gallery_version_coordinate, (version,), coordinate),
        call_ensures(gallery_last_updated, (version,), date),
    ensures
        match identity {
            Some((publisher, name, package)) => {
                &&& crate::response::identity_of(extension@) == Some((publisher@, name@))
                &&& package@ == crate::text::lowered(publisher@ + seq!['.'] + name@)
            },
            None => crate::response::identity_of(extension@) is None,
        },
        match coordinate {
            Some(coordinate) => crate::response::version_coordinate(version@) == Some(coordinate@),
            None => crate::response::version_coordinate(version@) is None,
        },
        crate::time::time_view(date) == (match version@.get("lastUpdated"@) {
            Some(JsonValue::Text(text)) => crate::time::rfc3339_instant(text),
            _ => None,
        }),
{
    reveal_strlit(".");
    assert("."@ =~= seq!['.']);
}

/// Extensions and documents are rewritten or refused as their records can be.
pub proof fn documents_are_rewritten_or_refused(
    extension: Json,
    rewritten: Result<Json, GalleryError>,
    response: Json,
    served: Result<Json, GalleryError>,
    base_url: &RequestBaseUrl,
    repo_key: &str,
)
    requires
        call_ensures(rewrite_extension, (extension, base_url, repo_key), rewritten),
        call_ensures(rewrite_gallery_asset_urls, (response, base_url, repo_key), served),
    ensures
        match crate::response::rewritten_extension(extension@, base_url.0@, repo_key@) {
            Some(after) => rewritten is Ok && rewritten->Ok_0@ == after,
            None => rewritten is Err && rewritten->Err_0 == GalleryError::InvalidResponse,
        },
        match served {
            Ok(after) => match (response@.list_at("results"@), after@.list_at("results"@)) {
                (Some(results), Some(kept)) => {
                    &&& kept.len() == results.len()
                    &&& forall|i: int|
                        0 <= i < results.len() ==> crate::rewriting::result_rewritten(
                            results[i],
                            #[trigger] kept[i],
                            base_url.0@,
                            repo_key@,
                        )
                },
                _ => false,
            },
            Err(error) => error == GalleryError::InvalidResponse
                && crate::response::rewritten_response(response@, base_url.0@, repo_key@) is None,
        },
{
    crate::rewriting::documents_are_rewritten_record_by_record(
        response@,
        base_url.0@,
        repo_key@,
    );
}

/// The version of an artifact's row is listed, whatever its manifest says; the manifest's only
/// where the row has none or a blank one. An artifact is listed exactly where it can be.
pub proof fn artifacts_are_listed_under_their_row(
    facts: &ArtifactFacts<'_>,
    entry: Option<CatalogEntry>,
)
    requires
        call_ensures(project, (facts,), entry),
    ensures
        match entry {
            Some(entry) => {
                &&& facts.version is Some && !crate::words::blank(facts.version->Some_0@)
                    ==> entry.version@ == crate::text::trimmed(facts.version->Some_0@)
                &&& facts.version is None || crate::words::blank(facts.version->Some_0@) ==> Some(
                    entry.version@,
                ) == crate::listing::says(facts.metadata@, "version"@)
                &&& crate::catalog::projected(facts@) == Some(entry@)
            },
            None => crate::catalog::projected(facts@) is None,
        },
{
    if crate::catalog::projected(facts@) is Some {
        crate::listing::row_versions_come_before_manifest_versions(facts@);
    }
}

/// Of a page of artifacts every package is registered, in their order, and every artifact is
/// counted; a full page goes on behind its last artifact, and any other is the last.
pub proof fn pages_are_brought_in_whole(
    rows: &Vec<StoredArtifact>,
    limit: i64,
    done: (BackfillReport, Vec<CatalogRegistration>),
)
    requires
        rows@.len() <= i64::MAX,
        call_ensures(backfill, (rows, limit), done),
    ensures
        ({
            let packages = rows@.filter(crate::listing::is_package());
            &&& done.0.scanned == rows@.len()
            &&& done.0.registered == packages.len()
            &&& done.0.skipped == rows@.len() - packages.len()
            &&& done.1@.len() == packages.len()
            &&& forall|i: int|
                0 <= i < packages.len() ==> {
                    &&& crate::catalog::registers(#[trigger] done.1@[i], packages[i])
                    &&& done.1@[i].repository_id == packages[i].repository_id
                    &&& done.1@[i].checksum_sha256@ == packages[i].checksum_sha256@
                    &&& done.1@[i].size_bytes == packages[i].size_bytes
                }
            &&& rows@.len() > 0 && rows@.len() == limit ==> done.0.next_cursor == Some(
                rows@.last().id,
            )
            &&& rows@.len() == 0 || rows@.len() != limit ==> done.0.next_cursor is None
        }),
{
    crate::listing::pages_register_every_package(rows@);
}

/// A stored artifact is registered exactly where it is listed, with what its row says.
pub proof fn artifacts_are_registered_with_their_row(
    stored: &StoredArtifact,
    registration: Option<CatalogRegistration>,
)
    requires
        call_ensures(register_artifact, (stored,), registration),
    ensures
        registration is Some <==> crate::listing::is_package()(*stored),
        match registration {
            Some(registration) => {
                &&& registration.repository_id == stored.repository_id
                &&& registration.size_bytes == stored.size_bytes
                &&& registration.checksum_sha256@ == stored.checksum_sha256@
                &&& registration.metadata@.get("format"@) == Some(JsonValue::Text(stored.format@))
            },
            None => true,
        },
{
    if let Some(registration) = registration {
        crate::listing::registrations_carry_the_row(registration, *stored);
    }
    assert(stored.known() == crate::catalog::Facts {
        format: stored.format@,
        metadata: stored.metadata@,
        name: stored.name@,
        version: match stored.version {
            Some(version) => Some(version@),
            None => None,
        },
        path: stored.path@,
    });
}

/// Artifacts of `docker` and `oci` do not say which package they are, and no others; which files
/// are no packages does not go by the format.
pub proof fn formats_and_paths_are_told_apart(
    format: &str,
    exempt: bool,
    path: &str,
    sidecar: bool,
)
    requires
        call_ensures(is_exempt_format, (format,), exempt),
        call_ensures(is_sidecar_path, (path,), sidecar),
    ensures
        exempt <==> format@ == "docker"@ || format@ == "oci"@,
        sidecar <==> crate::catalog::sidecar(path@),
{
}

/// The manifest is that of the server and the repository; a document wraps every record; counts are
/// less by what was removed; and records are put newest first.
pub proof fn documents_are_made_whole(
    base_url: &RequestBaseUrl,
    repo_key: &str,
    manifest: Json,
    extensions: Vec<Json>,
    result_metadata: Option<Json>,
    envelope: Json,
    result: Json,
    removed: usize,
    after: Json,
    versions: Vec<Json>,
    sorted: Vec<Json>,
)
    requires
        call_ensures(build_gallery_manifest, (base_url, repo_key), manifest),
        call_ensures(gallery_results_envelope, (extensions, result_metadata), envelope),
        call_ensures(reconcile_gallery_result_count, (result, removed), after),
        call_ensures(sort_gallery_versions_newest_first, (versions,), sorted),
    ensures
        manifest@ == crate::manifest::manifest(base_url.0@, repo_key@),
        envelope@ == crate::envelope::enveloped(
            crate::json::json_views(extensions@),
            crate::json::json_view_opt(result_metadata),
        ),
        after@ == crate::envelope::reconciled(result@, removed as nat),
        crate::json::json_views(sorted@) == crate::compose::sorted_records(
            crate::json::json_views(versions@),
        ),
        crate::json::json_views(versions@).len() == versions@.len(),
        forall|i: int|
            0 <= i < versions@.len() ==> #[trigger] crate::json::json_views(versions@)[i]
                == versions@[i]@,
{
}

/// The first extension and the first metadata of a document are copied as they are.
pub proof fn firsts_are_copied(document: &Json, extension: Option<Json>, metadata: Option<Json>)
    requires
        call_ensures(first_extension_of, (document,), extension),
        call_ensures(first_metadata_of, (document,), metadata),
    ensures
        match (extension, crate::envelope::first_extension(document@)) {
            (Some(copy), Some(first)) => copy@ == first,
            (None, None) => true,
            _ => false,
        },
        match (metadata, crate::envelope::first_metadata(document@)) {
            (Some(copy), Some(first)) => copy@ == first,
            (None, None) => true,
            _ => false,
        },
{
}

/// A part of a request that may not stand in a path is an invalid path, and in an answer an invalid
/// answer; a platform that is none is an invalid platform, and in an answer an invalid answer.
pub proof fn parts_are_refused_where_they_stand(
    value: &str,
    upstream_response: bool,
    safe: bool,
    requested: Result<(), GalleryError>,
    answered: Result<(), GalleryError>,
    fits: bool,
    platform: Result<(), GalleryError>,
)
    requires
        call_ensures(is_safe_gallery_segment, (value,), safe),
        call_ensures(validate_gallery_request_segment, (value,), requested),
        call_ensures(validate_gallery_response_segment, (value,), answered),
        call_ensures(is_safe_target_platform, (value,), fits),
        call_ensures(validate_target_platform, (value, upstream_response), platform),
    ensures
        safe <==> crate::coordinate::safe_segment(value@),
        requested is Ok <==> safe,
        answered is Ok <==> safe,
        requested is Err ==> requested->Err_0 == GalleryError::InvalidPath,
        answered is Err ==> answered->Err_0 == GalleryError::InvalidResponse,
        fits <==> crate::coordinate::safe_platform(value@),
        platform is Ok <==> fits,
        platform is Err && upstream_response ==> platform->Err_0 == GalleryError::InvalidResponse,
        platform is Err && !upstream_response ==> platform->Err_0
            == GalleryError::InvalidTargetPlatform,
{
}

/// Policies know an extension by publisher, dot and name in small letters, and a build by version,
/// `@` and the platform that is meant.
pub proof fn policies_are_asked_by_name(
    publisher: &str,
    name: &str,
    package: String,
    version: &str,
    target_platform: Option<&str>,
    coordinate: String,
    normal: String,
)
    requires
        call_ensures(vscode_age_gate_package, (publisher, name), package),
        call_ensures(vscode_age_gate_version, (version, target_platform), coordinate),
        call_ensures(normal_target_platform, (target_platform,), normal),
    ensures
        package@ == crate::text::lowered(publisher@ + seq!['.'] + name@),
        coordinate@ == version@ + seq!['@'] + normal@,
        normal@ == crate::coordinate::platform_of(
            match target_platform {
                Some(platform) => Some(platform@),
                None => None,
            },
        ),
{
    reveal_strlit(".");
    reveal_strlit("@");
    assert("."@ =~= seq!['.']);
    assert("@"@ =~= seq!['@']);
}

/// Every name, path, key and URL that is made here has the segments that it should have.
pub proof fn addresses_are_made_of_their_segments(
    base_url: &RequestBaseUrl,
    repo_key: &str,
    publisher: &str,
    name: &str,
    version: &str,
    platform: &str,
    made: (String, String, String, String, String, String, String, String, String),
)
    requires
        call_ensures(build_extension_id, (publisher, name), made.0),
        call_ensures(build_vsix_filename, (publisher, name, version), made.1),
        call_ensures(build_vsix_download_filename, (publisher, name, version), made.2),
        call_ensures(build_vscode_artifact_path, (publisher, name, version), made.3),
        call_ensures(build_vscode_storage_key, (publisher, name, version), made.4),
        call_ensures(build_vscode_download_url, (repo_key, publisher, name, version), made.5),
        call_ensures(gallery_base_url, (base_url, repo_key), made.6),
        call_ensures(gallery_item, (repo_key,), made.7),
        call_ensures(
            gallery_asset_base_url,
            (base_url, repo_key, publisher, name, version, platform),
            made.8,
        ),
    ensures
        made.0@ == publisher@ + seq!['.'] + name@,
        made.1@ == publisher@ + seq!['.'] + name@ + seq!['-'] + version@ + ".vsix"@,
        made.2@ == made.1@,
        made.3@ == publisher@ + crate::addresses::slashed(seq![name@, made.1@]),
        made.4@ == "vscode/"@ + made.3@,
        made.5@ == crate::addresses::slashed(
            seq!["vscode"@, repo_key@, "extensions"@, publisher@] + seq![
                name@,
                version@,
                "download"@,
            ],
        ),
        made.6@ == crate::text::without_trailing(base_url.0@, '/') + crate::addresses::slashed(
            seq!["vscode"@, crate::percent::encoded(repo_key@), "gallery"@],
        ),
        made.7@ == crate::addresses::slashed(
            seq!["repositories"@, crate::percent::encoded(repo_key@)],
        ),
        made.8@ == crate::addresses::build_root(
            base_url.0@,
            repo_key@,
            publisher@,
            name@,
            version@,
            platform@,
        ),
{
    crate::addresses::packages_are_kept_under_their_names(publisher@, name@, version@);
    crate::addresses::repositories_have_their_addresses(
        base_url.0@,
        repo_key@,
        publisher@,
        name@,
        version@,
    );
    crate::addresses::assets_are_served_under_their_build(
        base_url.0@,
        repo_key@,
        publisher@,
        name@,
        version@,
        platform@,
    );
}

} // verus!
