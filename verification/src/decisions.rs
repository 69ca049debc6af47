//! Laws on the routes: what each step of a request comes to, for every state it may find and
//! every answer it may get.

use vstd::prelude::*;

use crate::error::GalleryError;
use crate::gallery::{
    after_forward, after_narrow, check_gallery_document, client_query_flags, exact_version_lookup,
    gallery_age_gate_seam, gallery_extension_query, gallery_latest_version, latest_version_query,
    next_asset_stage, post_gallery_query, publish_evidence, read_gallery_document,
    render_gallery_response, AssetStage, ExactVersionLookup, GateSurface, LatestStep, QueryStep,
};
use crate::hosted::{
    content_disposition, download_vsix, latest_version, legacy_route, publish_extension,
    query_extensions, refuse_existing, reject_ungateable_legacy_pull_through, HostedArtifact,
    LegacyPullThrough, LegacyRoute, PublishPlan,
};
use crate::json::{Json, JsonValue};
use crate::query::{GalleryCriterion, GalleryQueryRequest};
use crate::repository::{RepoInfo, RequestBaseUrl};
use crate::skeleton::GallerySkeletonVersion;
use crate::time::PublishTime;
use crate::urls::{
    gallery_asset, gallery_upstream, gallery_vspackage, GalleryAssetCoordinate, GalleryAssetSource,
};

verus! {

/// The age gate is asked exactly where the repository asks for it; where there is no service to
/// ask, the request is refused and never let through.
pub proof fn requested_gates_are_never_passed_over(
    requested: bool,
    service_available: bool,
    surface: GateSurface,
    gate: Result<bool, GalleryError>,
)
    requires
        call_ensures(gallery_age_gate_seam, (requested, service_available, surface), gate),
    ensures
        gate == Ok::<bool, GalleryError>(false) <==> !requested,
        gate == Ok::<bool, GalleryError>(true) <==> requested && service_available,
        gate == Err::<bool, GalleryError>(GalleryError::MetadataGateUnavailable) <==> requested
            && !service_available && surface == GateSurface::Metadata,
        gate == Err::<bool, GalleryError>(GalleryError::AssetGateUnavailable) <==> requested
            && !service_available && surface == GateSurface::Asset,
{
}

/// The stages of an asset request follow one another in one order, from the operator's list to the
/// bytes, and none is left out.
pub proof fn stages_follow_one_another(passed: Option<AssetStage>, next: Option<AssetStage>)
    requires
        call_ensures(next_asset_stage, (passed,), next),
    ensures
        passed is None <==> next == Some(AssetStage::Curation),
        passed == Some(AssetStage::Curation) <==> next == Some(AssetStage::AgeGate),
        passed == Some(AssetStage::AgeGate) <==> next == Some(AssetStage::Proxy),
        passed == Some(AssetStage::Proxy) <==> next == Some(AssetStage::OutboundUrl),
        passed == Some(AssetStage::OutboundUrl) <==> next == Some(AssetStage::Fetch),
        passed == Some(AssetStage::Fetch) <==> next is None,
{
}

/// A query goes to the upstream exactly where the repository has one to serve, the query is JSON
/// and there is a proxy; the first of these that is missing is what is answered.
pub proof fn queries_reach_a_served_upstream(
    repo: &RepoInfo,
    is_public: Option<bool>,
    body: &[u8],
    proxy_available: bool,
    upstream: Result<&str, GalleryError>,
    url: Result<&str, GalleryError>,
)
    requires
        call_ensures(post_gallery_query, (repo, is_public, body, proxy_available), upstream),
        call_ensures(gallery_upstream, (repo, is_public), url),
    ensures
        match url {
            Err(error) => upstream is Err && upstream->Err_0 == error,
            Ok(url) => {
                let query = crate::json::parsed_json(body@) is Some;
                &&& upstream is Ok <==> query && proxy_available
                &&& upstream is Ok ==> upstream->Ok_0@ == url@
                &&& !query ==> upstream->Err_0 == GalleryError::InvalidQueryJson
                &&& query && !proxy_available ==> upstream->Err_0 == GalleryError::ProxyUnavailable
            },
        },
        match url {
            Ok(url) => {
                &&& repo.repo_type@ == "remote"@
                &&& is_public == Some(true)
                &&& match repo.upstream_url {
                    Some(configured) => url@ == configured@,
                    None => false,
                }
            },
            Err(_) => true,
        },
{
    crate::addresses::galleries_need_a_public_remote_upstream(*repo, is_public);
}

/// An answer of an upstream is read as the document that it spells, exactly where that has a list
/// of results; and a document is let pass unchanged, exactly where it has one.
pub proof fn documents_are_read_whole(
    content: &[u8],
    document: Result<Json, GalleryError>,
    given: Json,
    checked: Result<Json, GalleryError>,
)
    requires
        call_ensures(read_gallery_document, (content,), document),
        call_ensures(check_gallery_document, (given,), checked),
    ensures
        match document {
            Ok(document) => {
                &&& crate::json::parsed_json(content@) == Some(document@)
                &&& document@.list_at("results"@) is Some
            },
            Err(error) => match crate::json::parsed_json(content@) {
                Some(spelled) => error == GalleryError::InvalidResponse && spelled.list_at(
                    "results"@,
                ) is None,
                None => error == GalleryError::MalformedJson,
            },
        },
        match checked {
            Ok(checked) => checked@ == given@ && given@.list_at("results"@) is Some,
            Err(error) => error == GalleryError::InvalidResponse && given@.list_at(
                "results"@,
            ) is None,
        },
{
    crate::planning::answers_have_a_list_of_results(content@);
}

/// What is served of a document is the document rewritten, or the error that it cannot be.
pub proof fn documents_are_served_rewritten(
    response: Json,
    base_url: &RequestBaseUrl,
    repo_key: &str,
    body: Result<Vec<u8>, GalleryError>,
)
    requires
        call_ensures(render_gallery_response, (response, base_url, repo_key), body),
    ensures
        match body {
            Ok(body) => exists|after: JsonValue|
                crate::response::rewritten_response(response@, base_url.0@, repo_key@) == Some(
                    after,
                ) && body@ == #[trigger] crate::json::written_json(after),
            Err(error) => {
                &&& error == GalleryError::InvalidResponse
                &&& match response@.list_at("results"@) {
                    Some(results) => exists|i: int|
                        0 <= i < results.len() && !crate::rewriting::result_rewritable(
                            #[trigger] results[i],
                            base_url.0@,
                            repo_key@,
                        ),
                    None => true,
                }
            },
        },
{
    crate::rewriting::documents_are_rewritten_record_by_record(
        response@,
        base_url.0@,
        repo_key@,
    );
}

/// The flags of a query that could be read are its own; of one that could not, those that its JSON
/// has, and else none.
pub proof fn flags_are_the_clients(
    request: &Option<GalleryQueryRequest>,
    body: &[u8],
    flags: u32,
)
    requires
        call_ensures(client_query_flags, (request, body), flags),
    ensures
        match *request {
            Some(request) => flags == request.flags,
            None => match crate::json::parsed_json(body@) {
                Some(document) => match document.get("flags"@) {
                    Some(member) => match member.as_u64() {
                        Some(number) => if number <= 0xffff_ffff {
                            flags == number
                        } else {
                            flags == 0
                        },
                        None => flags == 0,
                    },
                    None => flags == 0,
                },
                None => flags == 0,
            },
        },
{
    crate::planning::clients_say_their_flags(*request, body@);
}

/// A query is composed exactly where it could be read and can be composed, and of what it is
/// composed of; any other is sent on.
pub proof fn other_queries_are_sent_on(request: &Option<GalleryQueryRequest>, step: QueryStep)
    requires
        call_ensures(gallery_extension_query, (request,), step),
    ensures
        match step {
            QueryStep::Compose { composition, result_metadata } => {
                &&& result_metadata is None
                &&& match *request {
                    Some(request) => crate::query::composition_of(request) == Some(
                        (
                            crate::query::criterion_views(composition.identities@),
                            crate::query::criterion_views(composition.qualifiers@),
                        ),
                    ),
                    None => false,
                }
            },
            QueryStep::Forward => match *request {
                Some(request) => crate::query::composition_of(request) is None,
                None => true,
            },
            _ => false,
        },
{
}

/// An answer to the client's own query is served as it is. Where it was too large, a client that
/// asked for versions and sent a JSON object is asked for again with the latest versions only, all
/// else as it was; any other request is too large.
pub proof fn large_answers_are_narrowed(
    flags: u32,
    body: &[u8],
    answer: Option<Json>,
    step: Result<QueryStep, GalleryError>,
)
    requires
        call_ensures(after_forward, (flags, body, answer), step),
    ensures
        match answer {
            Some(document) => step == Ok::<QueryStep, GalleryError>(QueryStep::Serve(document)),
            None => {
                let sent = crate::json::parsed_json(body@);
                if flags & 1u32 != 0 && sent is Some && sent->Some_0 is Object {
                    match step {
                        Ok(QueryStep::Narrow(narrower)) => narrower@ == crate::json::written_json(
                            sent->Some_0.with(
                                "flags"@,
                                JsonValue::Number(
                                    crate::json::unsigned_number(
                                        ((flags | 512u32) & !1u32) as u64,
                                    ),
                                ),
                            ),
                        ),
                        _ => false,
                    }
                } else {
                    step == Err::<QueryStep, GalleryError>(GalleryError::ResponseTooLarge)
                }
            },
        },
{
    crate::planning::queries_are_reissued_under_other_flags(
        body@,
        crate::gallery::identity_flags(flags),
    );
}

/// Behind a narrower query, the extensions that its answer names are composed under the client's
/// qualifiers and with the upstream's own count; too many qualifiers are too large, and an answer
/// that names none properly is invalid.
pub proof fn narrowed_queries_are_composed(
    request: &Option<GalleryQueryRequest>,
    identities: &Json,
    step: Result<QueryStep, GalleryError>,
)
    requires
        call_ensures(after_narrow, (request, identities), step),
    ensures
        ({
            let qualifiers = match *request {
                Some(request) => crate::planning::each_once(
                    crate::query::all_criteria(request.filters@).filter(
                        crate::planning::narrowing(),
                    ),
                ),
                None => Seq::empty(),
            };
            let limit = match *request {
                Some(request) => crate::query::page_limit(request),
                None => 50,
            };
            if qualifiers.len() > 8 {
                step == Err::<QueryStep, GalleryError>(GalleryError::ResponseTooLarge)
            } else {
                match crate::query::response_identities(identities@, limit) {
                    Some(named) => match step {
                        Ok(QueryStep::Compose { composition, result_metadata }) => {
                            &&& crate::query::criterion_views(composition.identities@) == named
                            &&& crate::query::criterion_views(composition.qualifiers@) == qualifiers
                            &&& crate::json::json_view_opt(result_metadata)
                                == crate::envelope::first_metadata(identities@)
                        },
                        _ => false,
                    },
                    None => step == Err::<QueryStep, GalleryError>(GalleryError::InvalidResponse),
                }
            }
        }),
{
    crate::planning::narrowed_queries_keep_page_and_qualifiers(*request);
}

/// The latest version of an extension is asked for by publisher, dot and name, exactly where both
/// may stand in a path, and with everything there is of it.
pub proof fn latest_versions_are_asked_for_by_name(
    publisher: &str,
    name: &str,
    query: Result<(GalleryCriterion, Vec<u8>), GalleryError>,
)
    requires
        call_ensures(latest_version_query, (publisher, name), query),
    ensures
        match query {
            Ok((identity, body)) => {
                &&& crate::coordinate::safe_segment(publisher@)
                &&& crate::coordinate::safe_segment(name@)
                &&& identity.filter_type == 7
                &&& identity.value@ == publisher@ + seq!['.'] + name@
                &&& crate::json::parsed_json(body@) == Some(
                    crate::query::single_id_query(
                        (7, publisher@ + seq!['.'] + name@),
                        Seq::empty(),
                        1023,
                    ),
                )
            },
            Err(error) => {
                &&& error == GalleryError::InvalidPath
                &&& !(crate::coordinate::safe_segment(publisher@)
                    && crate::coordinate::safe_segment(name@))
            },
        },
{
    reveal_strlit(".");
    assert("."@ =~= seq!['.']);
    assert((511u32 | 512u32) == 1023u32) by (bit_vector);
}

/// The first extension that the age gate leaves is served as it is rewritten. Where it leaves none,
/// an older version is looked for in the extension that was there before, and there is nothing to
/// find where there was none.
pub proof fn what_is_left_is_served_first(
    gated: Json,
    unfiltered: Option<Json>,
    base_url: &RequestBaseUrl,
    repo_key: &str,
    step: Result<LatestStep, GalleryError>,
)
    requires
        call_ensures(gallery_latest_version, (gated, unfiltered, base_url, repo_key), step),
    ensures
        match crate::response::rewritten_response(gated@, base_url.0@, repo_key@) {
            Some(rewritten) => match (crate::envelope::first_extension(rewritten), unfiltered) {
                (Some(extension), _) => match step {
                    Ok(LatestStep::Serve(served)) => served@ == extension,
                    _ => false,
                },
                (None, Some(extension)) => match step {
                    Ok(LatestStep::WalkBack(older)) => older == extension,
                    _ => false,
                },
                (None, None) => step is Err && step->Err_0 == GalleryError::ExtensionNotFound,
            },
            None => step is Err && step->Err_0 == GalleryError::InvalidResponse,
        },
{
}

/// The publish time of a build is looked up under the names that policies know it by, and asked for
/// with versions and nothing more.
pub proof fn evidence_is_asked_for_by_name(
    publisher: &str,
    name: &str,
    version: &str,
    target_platform: &str,
    lookup: ExactVersionLookup,
)
    requires
        call_ensures(exact_version_lookup, (publisher, name, version, target_platform), lookup),
    ensures
        lookup.package@ == crate::text::lowered(publisher@ + seq!['.'] + name@),
        lookup.coordinate@ == version@ + seq!['@'] + crate::coordinate::platform_of(
            Some(target_platform@),
        ),
        crate::json::parsed_json(lookup.query@) == Some(
            crate::query::single_id_query((7, lookup.package@), Seq::empty(), 1),
        ),
{
    reveal_strlit(".");
    reveal_strlit("@");
    assert("."@ =~= seq!['.']);
    assert("@"@ =~= seq!['@']);
}

/// The date of a build is that of the first version of the history with its name and platform; one
/// that the history does not have is not found.
pub proof fn evidence_is_found_in_the_history(
    skeleton: &Vec<GallerySkeletonVersion>,
    version: &str,
    target_platform: &str,
    published_at: Result<Option<PublishTime>, GalleryError>,
)
    requires
        call_ensures(publish_evidence, (skeleton, version, target_platform), published_at),
    ensures
        ({
            let entries = crate::skeleton::skeleton_views(skeleton@);
            let platform = crate::coordinate::platform_of(Some(target_platform@));
            match published_at {
                Ok(date) => exists|i: int|
                    #![trigger entries[i]]
                    0 <= i < entries.len() && entries[i].version == version@
                        && entries[i].target_platform == platform && entries[i].last_updated
                        == crate::time::time_view(date) && forall|j: int|
                        0 <= j < i ==> !((#[trigger] entries[j]).version == version@
                            && entries[j].target_platform == platform),
                Err(error) => {
                    &&& error == GalleryError::VersionNotFound
                    &&& forall|i: int|
                        0 <= i < entries.len() ==> !((#[trigger] entries[i]).version == version@
                            && entries[i].target_platform == platform)
                },
            }
        }),
{
    crate::reading::evidence_is_of_the_very_build(
        crate::skeleton::skeleton_views(skeleton@),
        version@,
        crate::coordinate::platform_of(Some(target_platform@)),
    );
}

/// Whether a request for a build is refused for its path.
pub open spec fn pathless(
    publisher: Seq<char>,
    name: Seq<char>,
    version: Seq<char>,
    platform: Seq<char>,
) -> bool {
    !(crate::coordinate::safe_segment(publisher) && crate::coordinate::safe_segment(name)
        && crate::coordinate::safe_segment(version) && crate::coordinate::safe_segment(platform))
}

/// A whole package is asked for and kept for the platform that the client means, under the segments
/// of its build; a request that names no build is refused.
pub proof fn packages_are_asked_for_as_meant(
    upstream_url: &str,
    repo_key: &str,
    publisher: &str,
    name: &str,
    version: &str,
    target_platform: Option<&str>,
    request: Result<(GalleryAssetCoordinate, GalleryAssetSource), GalleryError>,
)
    requires
        call_ensures(
            gallery_vspackage,
            (upstream_url, repo_key, publisher, name, version, target_platform),
            request,
        ),
    ensures
        ({
            let platform = crate::coordinate::platform_of(
                match target_platform {
                    Some(platform) => Some(platform@),
                    None => None,
                },
            );
            match request {
                Ok((coordinate, source)) => {
                    &&& !pathless(publisher@, name@, version@, platform)
                    &&& crate::coordinate::safe_platform(platform)
                    &&& coordinate.repo_key@ == repo_key@
                    &&& coordinate.publisher@ == publisher@
                    &&& coordinate.name@ == name@
                    &&& coordinate.version@ == version@
                    &&& coordinate.target_platform@ == platform
                    &&& source.upstream_url@ == crate::urls::upstream_package(
                        upstream_url@,
                        publisher@,
                        name@,
                        version@,
                        platform,
                    )
                    &&& source.cache_path@ == "gallery"@ + crate::addresses::slashed(
                        crate::addresses::build_segments(
                            publisher@,
                            name@,
                            version@,
                            platform,
                        ).push("vspackage"@),
                    )
                    &&& source.default_content_type@ == "application/vsix"@
                },
                Err(error) => if pathless(publisher@, name@, version@, platform) {
                    error == GalleryError::InvalidPath
                } else {
                    !crate::coordinate::safe_platform(platform) && error
                        == GalleryError::InvalidTargetPlatform
                },
            }
        }),
{
    let platform = crate::coordinate::platform_of(crate::coordinate::str_opt(target_platform));
    crate::addresses::builds_are_kept_apart_by_segment(
        publisher@,
        name@,
        version@,
        platform,
        Seq::empty(),
    );
}

/// An asset is asked for and kept for the platform that is meant, under the segments of its build
/// and the digest of its type; a request that names no build or no type, and an upstream without
/// assets, are refused.
pub proof fn assets_are_asked_for_as_meant(
    upstream_url: &str,
    repo_key: &str,
    publisher: &str,
    name: &str,
    version: &str,
    target_platform: &str,
    asset_type: &str,
    request: Result<(GalleryAssetCoordinate, GalleryAssetSource), GalleryError>,
)
    requires
        call_ensures(
            gallery_asset,
            (upstream_url, repo_key, publisher, name, version, target_platform, asset_type),
            request,
        ),
    ensures
        ({
            let platform = crate::coordinate::platform_of(Some(target_platform@));
            let url = crate::urls::upstream_asset(
                upstream_url@,
                publisher@,
                name@,
                version@,
                asset_type@,
                platform,
            );
            let nowhere = pathless(publisher@, name@, version@, platform)
                || !crate::coordinate::safe_segment(asset_type@);
            match request {
                Ok((coordinate, source)) => {
                    &&& !nowhere
                    &&& crate::coordinate::safe_platform(platform)
                    &&& coordinate.repo_key@ == repo_key@
                    &&& coordinate.publisher@ == publisher@
                    &&& coordinate.name@ == name@
                    &&& coordinate.version@ == version@
                    &&& coordinate.target_platform@ == platform
                    &&& url == Ok::<Seq<char>, GalleryError>(source.upstream_url@)
                    &&& source.cache_path@ == "gallery"@ + crate::addresses::slashed(
                        crate::addresses::build_segments(
                            publisher@,
                            name@,
                            version@,
                            platform,
                        ).push(
                            "asset-"@ + crate::urls::sha256_text(
                                vstd::utf8::encode_utf8(asset_type@),
                            ),
                        ),
                    )
                    &&& source.default_content_type@ == "application/octet-stream"@
                },
                Err(error) => if nowhere {
                    error == GalleryError::InvalidPath
                } else if !crate::coordinate::safe_platform(platform) {
                    error == GalleryError::InvalidTargetPlatform
                } else {
                    url == Err::<Seq<char>, GalleryError>(error)
                },
            }
        }),
{
    crate::addresses::builds_are_kept_apart_by_segment(
        publisher@,
        name@,
        version@,
        crate::coordinate::platform_of(Some(target_platform@)),
        asset_type@,
    );
}

/// The listing of a repository holds a record for every one of its packages, in their order, and
/// counts them all.
pub proof fn every_hosted_package_is_listed(
    repo_key: &str,
    artifacts: &Vec<HostedArtifact>,
    listing: Json,
)
    requires
        call_ensures(query_extensions, (repo_key, artifacts), listing),
    ensures
        crate::records::lists_all(listing@, repo_key@, artifacts@),
{
    crate::records::listings_hold_every_package(repo_key@, artifacts@);
}

/// The record of the latest hosted package says whose it is, what it is and where it is.
pub proof fn latest_packages_are_described(
    repo_key: &str,
    publisher: &str,
    name: &str,
    version: &Option<String>,
    checksum_sha256: &str,
    size_bytes: i64,
    record: Json,
)
    requires
        call_ensures(
            latest_version,
            (repo_key, publisher, name, version, checksum_sha256, size_bytes),
            record,
        ),
    ensures
        ({
            let said = match *version {
                Some(version) => version@,
                None => Seq::empty(),
            };
            &&& record@.get("publisher"@) == Some(JsonValue::Text(publisher@))
            &&& record@.get("name"@) == Some(JsonValue::Text(name@))
            &&& record@.get("version"@) == Some(JsonValue::Text(said))
            &&& record@.get("sha256"@) == Some(JsonValue::Text(checksum_sha256@))
            &&& record@.get("size"@) == Some(
                JsonValue::Number(crate::json::signed_number(size_bytes)),
            )
            &&& record@.get("downloadUrl"@) == Some(
                JsonValue::Text(
                    "/vscode/"@ + repo_key@ + "/extensions/"@ + publisher@ + "/"@ + name@ + "/"@
                        + said + "/download"@,
                ),
            )
        }),
{
    crate::records::latest_records_describe_the_package(
        repo_key@,
        publisher@,
        name@,
        match *version {
            Some(version) => version@,
            None => Seq::empty(),
        },
        checksum_sha256@,
        size_bytes,
    );
}

/// A package of a Remote repository is never pulled through without platform and date while its age
/// gate is on; of any other repository, and with the age gate off, it is.
pub proof fn ungated_pull_through_is_refused(repo: &RepoInfo, checked: Result<(), GalleryError>)
    requires
        call_ensures(reject_ungateable_legacy_pull_through, (repo,), checked),
    ensures
        checked is Err <==> repo.repo_type@ == "remote"@ && repo.age_gate_enabled,
        checked is Err ==> checked->Err_0 == GalleryError::LegacyGateUnavailable,
{
}

/// What is pulled through is the package of that publisher, name and version, under the name that
/// policies know it by; an age gate that is on refuses it first, and a path that cannot be after.
pub proof fn packages_are_pulled_through_by_name(
    repo: &RepoInfo,
    publisher: &str,
    name: &str,
    version: &str,
    plan: Result<LegacyPullThrough, GalleryError>,
)
    requires
        call_ensures(download_vsix, (repo, publisher, name, version), plan),
    ensures
        match plan {
            Ok(plan) => {
                &&& !(repo.repo_type@ == "remote"@ && repo.age_gate_enabled)
                &&& plan.upstream_path@ == "extensions"@ + crate::addresses::slashed(
                    seq![
                        crate::percent::encoded(publisher@),
                        crate::percent::encoded(name@),
                        crate::percent::encoded(version@),
                        "download"@,
                    ],
                )
                &&& plan.package@ == crate::text::lowered(publisher@ + seq!['.'] + name@)
            },
            Err(error) => if repo.repo_type@ == "remote"@ && repo.age_gate_enabled {
                error == GalleryError::LegacyGateUnavailable
            } else {
                &&& error == GalleryError::InvalidPath
                &&& !(crate::coordinate::safe_segment(publisher@)
                    && crate::coordinate::safe_segment(name@) && crate::coordinate::safe_segment(
                    version@,
                ))
            },
        },
{
    reveal_strlit(".");
    assert("."@ =~= seq!['.']);
    crate::addresses::legacy_packages_have_one_path(publisher@, name@, version@);
}

/// A package that is not there is looked for on the upstream of a Remote repository that has one
/// and a proxy, in the members of a Virtual one, and nowhere else.
pub proof fn missing_packages_are_looked_for_by_type(
    repo: &RepoInfo,
    proxy_available: bool,
    route: LegacyRoute,
)
    requires
        call_ensures(legacy_route, (repo, proxy_available), route),
    ensures
        match route {
            LegacyRoute::Upstream(url) => {
                &&& repo.repo_type@ == "remote"@
                &&& proxy_available
                &&& match repo.upstream_url {
                    Some(configured) => url@ == configured@,
                    None => false,
                }
            },
            LegacyRoute::Members => repo.repo_type@ == "virtual"@,
            LegacyRoute::NotFound => repo.repo_type@ != "virtual"@ && !(repo.repo_type@
                == "remote"@ && proxy_available && repo.upstream_url is Some),
        },
{
}

/// A downloaded package is saved under publisher, dot, name, hyphen, version and the ending.
pub proof fn downloads_are_saved_under_their_name(
    publisher: &str,
    name: &str,
    version: &str,
    header: String,
)
    requires
        call_ensures(content_disposition, (publisher, name, version), header),
    ensures
        header@ == "attachment; filename=\""@ + (publisher@ + seq!['.'] + name@ + seq!['-']
            + version@ + ".vsix"@) + "\""@,
{
    crate::addresses::packages_are_kept_under_their_names(publisher@, name@, version@);
}

/// A package is published exactly where it has bytes and the request says all there is to say, and
/// it is stored under what the request says: its checksum is that of its bytes, its key its path.
pub proof fn packages_are_published_as_said(
    body: &[u8],
    publisher: Option<&str>,
    name: Option<&str>,
    version: Option<&str>,
    plan: Result<PublishPlan, GalleryError>,
)
    requires
        call_ensures(publish_extension, (body, publisher, name, version), plan),
    ensures
        plan is Ok <==> body@.len() > 0 && publisher is Some && name is Some && version is Some,
        match plan {
            Ok(plan) => {
                let p = publisher->Some_0@;
                let n = name->Some_0@;
                let v = version->Some_0@;
                let path = p + crate::addresses::slashed(
                    seq![n, p + seq!['.'] + n + seq!['-'] + v + ".vsix"@],
                );
                &&& plan.extension_id@ == p + seq!['.'] + n
                &&& plan.version@ == v
                &&& plan.checksum_sha256@ == crate::urls::sha256_text(body@)
                &&& plan.content_type@ == "application/vsix"@
                &&& plan.artifact_path@ == path
                &&& plan.storage_key@ == "vscode/"@ + path
                &&& plan.metadata@.get("publisher"@) == Some(JsonValue::Text(p))
                &&& plan.metadata@.get("extension_name"@) == Some(JsonValue::Text(n))
                &&& plan.metadata@.get("version"@) == Some(JsonValue::Text(v))
                &&& plan.answer@.get("publisher"@) == Some(JsonValue::Text(p))
                &&& plan.answer@.get("name"@) == Some(JsonValue::Text(n))
                &&& plan.answer@.get("version"@) == Some(JsonValue::Text(v))
            },
            Err(error) => {
                &&& error == GalleryError::EmptyPackage <==> body@.len() == 0
                &&& error == GalleryError::MissingPublisher <==> body@.len() > 0 && publisher
                    is None
                &&& error == GalleryError::MissingExtensionName <==> body@.len() > 0 && publisher
                    is Some && name is None
                &&& error == GalleryError::MissingExtensionVersion <==> body@.len() > 0
                    && publisher is Some && name is Some && version is None
            },
        },
{
    if publisher is Some && name is Some && version is Some {
        let p = publisher->Some_0@;
        let n = name->Some_0@;
        let v = version->Some_0@;
        crate::addresses::packages_are_kept_under_their_names(p, n, v);
        crate::records::publishing_keeps_what_was_published(p, n, v);
    }
}

/// What is there already is not published again, and what is not there may be.
pub proof fn versions_are_published_once(exists: bool, checked: Result<(), GalleryError>)
    requires
        call_ensures(refuse_existing, (exists,), checked),
    ensures
        checked is Err <==> exists,
        checked is Err ==> checked->Err_0 == GalleryError::VersionExists,
{
}

} // verus!
