//! The gallery routes as decisions: what a request comes to, step by step, as the upstream, the
//! age gate and the proxy answer.

use vstd::prelude::*;

use crate::bounds::GALLERY_COMPOSED_IDENTITY_CAP;
use crate::compose::skeleton_query;
use crate::coordinate::{
    invalid_gallery_response, validate_gallery_request_segment, vscode_age_gate_package,
    vscode_age_gate_version,
};
use crate::envelope::{first_extension_of, first_metadata_of};
use crate::error::GalleryError;
use crate::json::{Json, JsonValue};
use crate::query::{
    gallery_composable_criteria, gallery_composed_identity_limit, gallery_query_flags,
    gallery_query_qualifiers, gallery_query_with_flags, gallery_response_identities,
    GalleryComposition, GalleryCriterion, GalleryQueryRequest, GALLERY_EXACT_VERSION_QUERY_FLAGS,
    GALLERY_EXTENSION_NAME_FILTER, GALLERY_INCLUDE_VERSIONS_FLAG, GALLERY_LATEST_VERSION_ONLY_FLAG,
    GALLERY_LATEST_VERSION_QUERY_FLAGS,
};
use crate::repository::{RepoInfo, RequestBaseUrl};
use crate::response::rewrite_gallery_asset_urls;
use crate::skeleton::{find_gallery_exact_version, GallerySkeletonVersion};
use crate::time::PublishTime;
use crate::urls::{build_extension_id, gallery_upstream};

verus! {

/// The upstream that a query goes to, or why it goes to none: first what is wrong with the
/// repository, then that the query is no JSON, then that there is no proxy.
pub fn post_gallery_query<'a>(
    repo: &'a RepoInfo,
    is_public: Option<bool>,
    body: &[u8],
    proxy_available: bool,
) -> (upstream: Result<&'a str, GalleryError>)
    ensures
        match upstream {
            Ok(url) => {
                &&& crate::urls::upstream_of(*repo, is_public) == Ok::<Seq<char>, GalleryError>(url@)
                &&& crate::json::parsed_json(body@) is Some
                &&& proxy_available
            },
            Err(error) => match crate::urls::upstream_of(*repo, is_public) {
                Err(refused) => error == refused,
                Ok(_) => if crate::json::parsed_json(body@) is None {
                    error == GalleryError::InvalidQueryJson
                } else {
                    !proxy_available && error == GalleryError::ProxyUnavailable
                },
            },
        },
{
    let url = gallery_upstream(repo, is_public)?;
    if Json::parse(body).is_none() {
        return Err(GalleryError::InvalidQueryJson);
    }
    if !proxy_available {
        return Err(GalleryError::ProxyUnavailable);
    }
    Ok(url)
}

/// The gallery document in an upstream's answer, where it is one.
pub open spec fn document_in(content: Seq<u8>) -> Result<JsonValue, GalleryError> {
    match crate::json::parsed_json(content) {
        Some(document) => if document.list_at("results"@) is Some {
            Ok(document)
        } else {
            Err(GalleryError::InvalidResponse)
        },
        None => Err(GalleryError::MalformedJson),
    }
}

/// The gallery document in an upstream's answer.
pub fn read_gallery_document(content: &[u8]) -> (document: Result<Json, GalleryError>)
    ensures
        crate::response::json_or_error(document) == document_in(content@),
{
    match Json::parse(content) {
        Some(document) => check_gallery_document(document),
        None => Err(malformed_gallery_json()),
    }
}

/// The error for an answer that is not JSON.
pub fn malformed_gallery_json() -> (error: GalleryError)
    ensures
        error == GalleryError::MalformedJson,
{
    GalleryError::MalformedJson
}

/// Refuses a document that has no list of results.
pub fn check_gallery_document(document: Json) -> (checked: Result<Json, GalleryError>)
    ensures
        crate::response::json_or_error(checked) == (if document@.list_at("results"@) is Some {
            Ok::<JsonValue, GalleryError>(document@)
        } else {
            Err(GalleryError::InvalidResponse)
        }),
{
    if document.get_list("results").is_some() {
        Ok(document)
    } else {
        Err(invalid_gallery_response())
    }
}

/// The error for an answer over its byte ceiling.
pub fn gallery_response_too_large() -> (error: GalleryError)
    ensures
        error == GalleryError::ResponseTooLarge,
{
    GalleryError::ResponseTooLarge
}

/// The bytes of a gallery document as it is served: every asset reference under this server.
pub fn render_gallery_response(response: Json, base_url: &RequestBaseUrl, repo_key: &str) -> (body:
    Result<Vec<u8>, GalleryError>)
    ensures
        match body {
            Ok(body) => match crate::response::rewritten_response(
                response@,
                base_url.0@,
                repo_key@,
            ) {
                Some(rewritten) => body@ == crate::json::written_json(rewritten),
                None => false,
            },
            Err(error) => error == GalleryError::InvalidResponse
                && crate::response::rewritten_response(response@, base_url.0@, repo_key@) is None,
        },
{
    let rewritten = rewrite_gallery_asset_urls(response, base_url, repo_key)?;
    Ok(rewritten.encode())
}

/// What comes next in answering an extension query.
pub enum QueryStep {
    /// Compose the answer one extension at a time.
    Compose { composition: GalleryComposition, result_metadata: Option<Json> },
    /// Send the client's own query on.
    Forward,
    /// Gate, rewrite and serve the document.
    Serve(Json),
    /// Ask the narrower query for identities.
    Narrow(Vec<u8>),
}

/// The flags of a client's query: as its request has them, else as its JSON has them, else none.
pub open spec fn client_flags(request: Option<GalleryQueryRequest>, body: Seq<u8>) -> u32 {
    match request {
        Some(request) => request.flags,
        None => match crate::json::parsed_json(body) {
            Some(document) => match crate::query::flags_of(document) {
                Some(flags) => flags,
                None => 0,
            },
            None => 0,
        },
    }
}

/// The flags of a client's query. A query whose request could not be read may still have flags.
pub fn client_query_flags(request: &Option<GalleryQueryRequest>, body: &[u8]) -> (flags: u32)
    ensures
        flags == client_flags(*request, body@),
{
    match request {
        Some(request) => request.flags,
        None => match gallery_query_flags(body) {
            Some(flags) => flags,
            None => 0,
        },
    }
}

/// The first step of an extension query: what names its extensions and asks for their whole
/// histories is composed, all else is sent on.
pub fn gallery_extension_query(request: &Option<GalleryQueryRequest>) -> (step: QueryStep)
    ensures
        ({
            let composition = match *request {
                Some(request) => crate::query::composition_of(request),
                None => None,
            };
            match step {
                QueryStep::Compose { composition: plan, result_metadata } => {
                    &&& result_metadata is None
                    &&& composition == Some(
                        (
                            crate::query::criterion_views(plan.identities@),
                            crate::query::criterion_views(plan.qualifiers@),
                        ),
                    )
                },
                QueryStep::Forward => composition is None,
                _ => false,
            }
        }),
{
    match request {
        Some(request) => match gallery_composable_criteria(request) {
            Some(composition) => QueryStep::Compose { composition, result_metadata: None },
            None => QueryStep::Forward,
        },
        None => QueryStep::Forward,
    }
}

/// The flags of the narrower query: the latest versions only, and no version histories.
pub open spec fn identity_flags(flags: u32) -> u32 {
    (flags | GALLERY_LATEST_VERSION_ONLY_FLAG) & !GALLERY_INCLUDE_VERSIONS_FLAG
}

/// The narrower query asks for no version histories, whatever the client asked for.
pub proof fn narrower_queries_ask_for_no_history(flags: u32)
    ensures
        identity_flags(flags) & GALLERY_INCLUDE_VERSIONS_FLAG == 0,
        identity_flags(flags) & GALLERY_LATEST_VERSION_ONLY_FLAG != 0,
        !crate::query::asks_for_history(identity_flags(flags)),
{
    assert(((flags | 512u32) & !1u32) & 1u32 == 0u32) by (bit_vector);
    assert(((flags | 512u32) & !1u32) & 512u32 != 0u32) by (bit_vector);
}

/// The step after the client's own query was sent on. An answer is served. One over the ceiling
/// can be narrowed to identities where the client asked for versions; else nothing can be done.
pub fn after_forward(flags: u32, body: &[u8], answer: Option<Json>) -> (step: Result<
    QueryStep,
    GalleryError,
>)
    ensures
        match answer {
            Some(document) => step == Ok::<QueryStep, GalleryError>(QueryStep::Serve(document)),
            None => match step {
                Ok(QueryStep::Narrow(narrower)) => {
                    &&& flags & GALLERY_INCLUDE_VERSIONS_FLAG != 0
                    &&& crate::query::reflagged(body@, identity_flags(flags)) == Some(narrower@)
                },
                Ok(_) => false,
                Err(error) => {
                    &&& error == GalleryError::ResponseTooLarge
                    &&& flags & GALLERY_INCLUDE_VERSIONS_FLAG == 0 || crate::query::reflagged(
                        body@,
                        identity_flags(flags),
                    ) is None
                },
            },
        },
{
    if let Some(document) = answer {
        return Ok(QueryStep::Serve(document));
    }
    if flags & GALLERY_INCLUDE_VERSIONS_FLAG == 0 {
        return Err(gallery_response_too_large());
    }
    let narrower = (flags | GALLERY_LATEST_VERSION_ONLY_FLAG) & !GALLERY_INCLUDE_VERSIONS_FLAG;
    match gallery_query_with_flags(body, narrower) {
        Some(body) => Ok(QueryStep::Narrow(body)),
        None => Err(gallery_response_too_large()),
    }
}

/// How many of the identities that a narrower query named are composed.
pub open spec fn identity_limit(request: Option<GalleryQueryRequest>) -> nat {
    match request {
        Some(request) => crate::query::page_limit(request),
        None => GALLERY_COMPOSED_IDENTITY_CAP as nat,
    }
}

/// The qualifiers that composing replays, or nothing where there are too many.
pub open spec fn replayed_qualifiers(request: Option<GalleryQueryRequest>) -> Option<
    Seq<(u64, Seq<char>)>,
> {
    match request {
        Some(request) => crate::query::query_qualifiers(request),
        None => Some(Seq::empty()),
    }
}

/// The step after the narrower query was answered: the identities that the answer names are
/// composed under the client's qualifiers, with the upstream's own count. Too many qualifiers
/// leave the answer too large.
pub fn after_narrow(request: &Option<GalleryQueryRequest>, identities: &Json) -> (step: Result<
    QueryStep,
    GalleryError,
>)
    ensures
        match replayed_qualifiers(*request) {
            None => step == Err::<QueryStep, GalleryError>(GalleryError::ResponseTooLarge),
            Some(qualifiers) => match crate::query::response_identities(
                identities@,
                identity_limit(*request),
            ) {
                None => step == Err::<QueryStep, GalleryError>(GalleryError::InvalidResponse),
                Some(named) => match step {
                    Ok(QueryStep::Compose { composition, result_metadata }) => {
                        &&& crate::query::criterion_views(composition.identities@) == named
                        &&& crate::query::criterion_views(composition.qualifiers@) == qualifiers
                        &&& crate::json::json_view_opt(result_metadata)
                            == crate::envelope::first_metadata(identities@)
                    },
                    _ => false,
                },
            },
        },
{
    let limit: usize = match request {
        Some(request) => gallery_composed_identity_limit(request),
        None => GALLERY_COMPOSED_IDENTITY_CAP,
    };
    let qualifiers: Vec<GalleryCriterion> = match request {
        Some(request) => match gallery_query_qualifiers(request) {
            Some(qualifiers) => qualifiers,
            None => return Err(gallery_response_too_large()),
        },
        None => Vec::new(),
    };
    assert(request is None ==> crate::query::criterion_views(qualifiers@) =~= Seq::empty());
    let named = gallery_response_identities(identities, limit)?;
    Ok(
        QueryStep::Compose {
            composition: GalleryComposition { identities: named, qualifiers },
            result_metadata: first_metadata_of(identities),
        },
    )
}

/// The criterion that selects an extension by publisher and name, and the query for its latest
/// version, where both may stand in a path.
pub fn latest_version_query(publisher: &str, name: &str) -> (query: Result<
    (GalleryCriterion, Vec<u8>),
    GalleryError,
>)
    ensures
        match query {
            Ok((identity, body)) => {
                let wanted = crate::query::single_id_query(
                    identity@,
                    Seq::empty(),
                    GALLERY_LATEST_VERSION_QUERY_FLAGS,
                );
                &&& crate::coordinate::safe_segment(publisher@)
                &&& crate::coordinate::safe_segment(name@)
                &&& identity@ == (
                    GALLERY_EXTENSION_NAME_FILTER,
                    crate::urls::extension_id(publisher@, name@),
                )
                &&& body@ == crate::json::written_json(wanted)
                &&& crate::json::parsed_json(body@) == Some(wanted)
            },
            Err(error) => {
                &&& error == GalleryError::InvalidPath
                &&& !(crate::coordinate::safe_segment(publisher@)
                    && crate::coordinate::safe_segment(name@))
            },
        },
{
    validate_gallery_request_segment(publisher)?;
    validate_gallery_request_segment(name)?;
    let identity = GalleryCriterion {
        filter_type: GALLERY_EXTENSION_NAME_FILTER,
        value: build_extension_id(publisher, name),
    };
    let none: Vec<GalleryCriterion> = Vec::new();
    assert(crate::query::criterion_views(none@) =~= Seq::empty());
    let body = skeleton_query(&identity, &none, GALLERY_LATEST_VERSION_QUERY_FLAGS);
    Ok((identity, body))
}

/// What comes next in answering a request for the latest version.
pub enum LatestStep {
    /// Serve the extension record.
    Serve(Json),
    /// The age gate withholds every latest version: look for an older one in the history, and serve
    /// it in this extension record.
    WalkBack(Json),
}

/// The step once the age gate has been applied to the answer for the latest version. `unfiltered`
/// is the extension record of that answer before the age gate.
pub fn gallery_latest_version(
    gated: Json,
    unfiltered: Option<Json>,
    base_url: &RequestBaseUrl,
    repo_key: &str,
) -> (step: Result<LatestStep, GalleryError>)
    ensures
        match crate::response::rewritten_response(gated@, base_url.0@, repo_key@) {
            None => step == Err::<LatestStep, GalleryError>(GalleryError::InvalidResponse),
            Some(rewritten) => match crate::envelope::first_extension(rewritten) {
                Some(extension) => match step {
                    Ok(LatestStep::Serve(served)) => served@ == extension,
                    _ => false,
                },
                None => match unfiltered {
                    Some(extension) => step == Ok::<LatestStep, GalleryError>(
                        LatestStep::WalkBack(extension),
                    ),
                    None => step == Err::<LatestStep, GalleryError>(
                        GalleryError::ExtensionNotFound,
                    ),
                },
            },
        },
{
    let rewritten = rewrite_gallery_asset_urls(gated, base_url, repo_key)?;
    match first_extension_of(&rewritten) {
        Some(extension) => Ok(LatestStep::Serve(extension)),
        None => match unfiltered {
            Some(extension) => Ok(LatestStep::WalkBack(extension)),
            None => Err(gallery_extension_not_found()),
        },
    }
}

/// The error for an extension that is not there.
pub fn gallery_extension_not_found() -> (error: GalleryError)
    ensures
        error == GalleryError::ExtensionNotFound,
{
    GalleryError::ExtensionNotFound
}

/// What the publish time of one build is looked up under.
#[derive(Debug)]
pub struct ExactVersionLookup {
    pub package: String,
    pub coordinate: String,
    pub query: Vec<u8>,
}

/// What the publish time of one build is looked up under: the versions of its extension, with
/// nothing more of them than is read.
pub fn exact_version_lookup(
    publisher: &str,
    name: &str,
    version: &str,
    target_platform: &str,
) -> (lookup: ExactVersionLookup)
    ensures
        ({
            let package = crate::coordinate::package_of(publisher@, name@);
            let query = crate::query::single_id_query(
                (GALLERY_EXTENSION_NAME_FILTER, package),
                Seq::empty(),
                GALLERY_EXACT_VERSION_QUERY_FLAGS,
            );
            &&& lookup.package@ == package
            &&& lookup.coordinate@ == crate::coordinate::coordinate_of(
                version@,
                Some(target_platform@),
            )
            &&& lookup.query@ == crate::json::written_json(query)
            &&& crate::json::parsed_json(lookup.query@) == Some(query)
        }),
{
    let package = vscode_age_gate_package(publisher, name);
    let identity = GalleryCriterion {
        filter_type: GALLERY_EXTENSION_NAME_FILTER,
        value: package.as_str().to_string(),
    };
    let none: Vec<GalleryCriterion> = Vec::new();
    assert(crate::query::criterion_views(none@) =~= Seq::empty());
    ExactVersionLookup {
        package,
        coordinate: vscode_age_gate_version(version, Some(target_platform)),
        query: skeleton_query(&identity, &none, GALLERY_EXACT_VERSION_QUERY_FLAGS),
    }
}

/// When the build that is asked for was published, as the history says. A build that it does not
/// have is not found; one that it has undated is, for the age gate to decide.
pub fn publish_evidence(
    skeleton: &Vec<GallerySkeletonVersion>,
    version: &str,
    target_platform: &str,
) -> (published_at: Result<Option<PublishTime>, GalleryError>)
    ensures
        match crate::skeleton::exact_date(
            crate::skeleton::skeleton_views(skeleton@),
            version@,
            crate::coordinate::platform_of(Some(target_platform@)),
        ) {
            Some(date) => match published_at {
                Ok(time) => crate::time::time_view(time) == date,
                Err(_) => false,
            },
            None => published_at == Err::<Option<PublishTime>, GalleryError>(
                GalleryError::VersionNotFound,
            ),
        },
{
    match find_gallery_exact_version(skeleton, version, target_platform) {
        Some(date) => Ok(date),
        None => Err(GalleryError::VersionNotFound),
    }
}

/// What an age gate stands before.
#[derive(Debug, Clone, Copy, PartialEq, Eq, Structural)]
pub enum GateSurface {
    Metadata,
    Asset,
}

/// Whether the age gate is to be asked: not where the repository asks for none, and never passed
/// over where it asks for one that there is no service for.
pub fn gallery_age_gate_seam(requested: bool, service_available: bool, surface: GateSurface) -> (
gate: Result<bool, GalleryError>)
    ensures
        gate == (if !requested {
            Ok::<bool, GalleryError>(false)
        } else if service_available {
            Ok(true)
        } else if surface == GateSurface::Metadata {
            Err(GalleryError::MetadataGateUnavailable)
        } else {
            Err(GalleryError::AssetGateUnavailable)
        }),
{
    if !requested {
        return Ok(false);
    }
    if service_available {
        return Ok(true);
    }
    match surface {
        GateSurface::Metadata => Err(GalleryError::MetadataGateUnavailable),
        GateSurface::Asset => Err(GalleryError::AssetGateUnavailable),
    }
}

/// What an asset request passes before its bytes are looked for.
#[derive(Debug, Clone, Copy, PartialEq, Eq, Structural)]
pub enum AssetStage {
    /// The operator's list of what may be served.
    Curation,
    /// The age gate, on metadata fetched for this request.
    AgeGate,
    /// That there is a proxy.
    Proxy,
    /// That the URL may be reached.
    OutboundUrl,
    /// The cache, and then the upstream.
    Fetch,
}

/// The place of a stage.
pub open spec fn stage_rank(stage: AssetStage) -> nat {
    match stage {
        AssetStage::Curation => 0,
        AssetStage::AgeGate => 1,
        AssetStage::Proxy => 2,
        AssetStage::OutboundUrl => 3,
        AssetStage::Fetch => 4,
    }
}

/// The stage that follows one that was passed. Bytes come last: no cache is read before the
/// operator's list and the age gate have been asked.
pub fn next_asset_stage(passed: Option<AssetStage>) -> (next: Option<AssetStage>)
    ensures
        match (passed, next) {
            (None, Some(next)) => stage_rank(next) == 0,
            (Some(passed), Some(next)) => stage_rank(next) == stage_rank(passed) + 1,
            (Some(passed), None) => passed == AssetStage::Fetch,
            (None, None) => false,
        },
{
    match passed {
        None => Some(AssetStage::Curation),
        Some(AssetStage::Curation) => Some(AssetStage::AgeGate),
        Some(AssetStage::AgeGate) => Some(AssetStage::Proxy),
        Some(AssetStage::Proxy) => Some(AssetStage::OutboundUrl),
        Some(AssetStage::OutboundUrl) => Some(AssetStage::Fetch),
        Some(AssetStage::Fetch) => None,
    }
}

} // verus!
