use artifact_keeper::bounds::{
    DEFAULT_PROXY_METADATA_BUDGET_BYTES, GALLERY_COMPOSED_EXTENSION_BYTES,
    GALLERY_COMPOSED_IDENTITY_CAP, GALLERY_COMPOSED_QUALIFIER_CAP, GALLERY_COMPOSITION_ADMISSION,
    GALLERY_COMPOSITION_BUDGET_RESERVATION_BYTES, GALLERY_COMPOSITION_CONCURRENCY,
    GALLERY_METADATA_BUDGET_RESERVATION_BYTES, GALLERY_METADATA_MAX_BYTES,
    GALLERY_SKELETON_BUDGET_MULTIPLE, GALLERY_SKELETON_BUDGET_RESERVATION_BYTES,
    GALLERY_SKELETON_MAX_BYTES, GALLERY_VERSIONS_PER_CHANNEL, ProxyMetadataBudget,
};
use artifact_keeper::coordinate::{
    is_safe_gallery_segment, is_safe_target_platform, normal_target_platform,
    vscode_age_gate_package, vscode_age_gate_version,
};
use artifact_keeper::envelope::{gallery_results_envelope, reconcile_gallery_result_count};
use artifact_keeper::json::Json;
use artifact_keeper::manifest::build_gallery_manifest;
use artifact_keeper::query::{
    gallery_composable_criteria, gallery_composed_identity_limit, gallery_query_flags,
    gallery_query_with_flags, GalleryCriterion, GalleryQueryCriterion, GalleryQueryFilter,
    GalleryQueryRequest, GALLERY_EXACT_VERSION_QUERY_FLAGS, GALLERY_LATEST_VERSION_QUERY_FLAGS,
    GALLERY_SKELETON_QUERY_FLAGS,
};
use artifact_keeper::repository::RequestBaseUrl;
use artifact_keeper::response::{gallery_last_updated, rewrite_gallery_asset_urls};
use artifact_keeper::skeleton::{
    find_gallery_exact_version, gallery_skeleton_versions, select_bounded_gallery_versions,
    synthesize_gallery_version, GallerySkeletonVersion, GallerySkeletonWireDocument,
    GallerySkeletonWireExtension, GallerySkeletonWireProperty, GallerySkeletonWirePublisher,
    GallerySkeletonWireResult, GallerySkeletonWireVersion,
};
use artifact_keeper::time::gallery_parse_last_updated;
use artifact_keeper::urls::{
    gallery_version_asset_base, legacy_download_upstream_path, openvsx_asset_url,
};

const GALLERY_PRERELEASE_PROPERTY: &str = "Microsoft.VisualStudio.Code.PreRelease";
const GALLERY_ENGINE_PROPERTY: &str = "Microsoft.VisualStudio.Code.Engine";
const DEFAULT_TARGET_PLATFORM: &str = "universal";
const SKELETON_PACKAGE: &str = "redhat.vscode-yaml";

fn doc(text: &str) -> Json {
    Json::parse(text.as_bytes()).expect("the document is JSON")
}

fn text(json: &Json) -> String {
    String::from_utf8(json.duplicate().encode()).expect("JSON is text")
}

/// What stands under a path of keys and list places.
fn at<'a>(json: &'a Json, path: &[&str]) -> &'a Json {
    let mut here = json;
    for step in path {
        here = match here.as_list() {
            Some(items) => &items[step.parse::<usize>().expect("a place in a list")],
            None => here.get(step).expect("a member"),
        };
    }
    here
}

fn str_at<'a>(json: &'a Json, path: &[&str]) -> &'a str {
    at(json, path).as_str().expect("text")
}

fn base() -> RequestBaseUrl {
    RequestBaseUrl("https://ak.example".to_string())
}

#[test]
fn gallery_age_gate_coordinates_are_casefolded_and_platform_qualified() {
    assert_eq!(vscode_age_gate_package("RedHat", "VSCode-YAML"), "redhat.vscode-yaml");
    assert_eq!(vscode_age_gate_version("1.24.0", Some("linux-x64")), "1.24.0@linux-x64");
    assert_eq!(vscode_age_gate_version("1.24.0", Some("WIN32-X64")), "1.24.0@win32-x64");
    assert_eq!(vscode_age_gate_version("1.24.0", Some("")), "1.24.0@universal");
    assert_eq!(vscode_age_gate_version("1.24.0", None), "1.24.0@universal");
    assert_eq!(normal_target_platform(Some(" Linux-X64 ")), "linux-x64");
}

#[test]
fn gallery_publish_time_evidence_is_rfc3339_or_missing() {
    let old = doc(r#"{ "lastUpdated": "2024-01-02T03:04:05Z" }"#);
    assert!(gallery_last_updated(&old).is_some());
    assert!(gallery_last_updated(&doc("{}")).is_none());
    assert!(gallery_last_updated(&doc(r#"{ "lastUpdated": "yesterday" }"#)).is_none());
}

fn skeleton_version(
    version: &str,
    target_platform: Option<&str>,
    last_updated: Option<&str>,
) -> GallerySkeletonVersion {
    GallerySkeletonVersion {
        version: version.to_string(),
        target_platform: normal_target_platform(target_platform),
        last_updated: last_updated.and_then(gallery_parse_last_updated),
        prerelease: false,
        engine: None,
    }
}

#[test]
fn exact_gallery_lookup_keeps_platform_variants_independent() {
    let skeleton = vec![
        skeleton_version("1.24.0", Some("linux-x64"), Some("2024-01-02T03:04:05Z")),
        skeleton_version("1.24.0", Some("win32-x64"), Some("not-a-time")),
        skeleton_version("1.24.0", None, Some("2024-01-02T03:04:05Z")),
    ];
    assert!(find_gallery_exact_version(&skeleton, "1.24.0", "linux-x64")
        .flatten()
        .is_some());
    assert_eq!(
        find_gallery_exact_version(&skeleton, "1.24.0", "win32-x64"),
        Some(None),
        "a platform variant without trustworthy evidence must reach the fail-closed seam"
    );
    assert!(find_gallery_exact_version(&skeleton, "1.24.0", "darwin-arm64").is_none());
    assert!(find_gallery_exact_version(&skeleton, "1.24.0", "")
        .flatten()
        .is_some());
}

#[test]
fn gallery_result_count_reconciles_after_age_filtering() {
    let result = doc(
        r#"{
            "extensions": [],
            "resultMetadata": [{
                "metadataType": "ResultCount",
                "metadataItems": [{ "name": "TotalCount", "count": 99 }]
            }]
        }"#,
    );
    let result = reconcile_gallery_result_count(result, 2);
    assert_eq!(
        at(&result, &["resultMetadata", "0", "metadataItems", "0", "count"]).as_u64(),
        Some(97)
    );
}

#[test]
fn gallery_manifest_uses_vscode_resource_wire_shape() {
    let manifest = build_gallery_manifest(&base(), "extensions");
    assert_eq!(str_at(&manifest, &["resources", "0", "type"]), "ExtensionQueryService");
    assert_eq!(
        str_at(&manifest, &["resources", "0", "id"]),
        "https://ak.example/vscode/extensions/gallery/extensionquery"
    );
    assert_eq!(
        str_at(&manifest, &["resources", "1", "type"]),
        "ExtensionLatestVersionUriTemplate"
    );
    assert_eq!(
        str_at(&manifest, &["resources", "1", "id"]),
        "https://ak.example/vscode/extensions/gallery/{publisher}/{name}/latest"
    );
    assert_eq!(
        str_at(&manifest, &["resources", "2", "id"]),
        "https://ak.example/vscode/extensions/item?itemName={publisher}.{name}"
    );
    assert_eq!(str_at(&manifest, &["version"]), "");
    assert!(at(&manifest, &["resources", "0"]).get("url").is_none());
    let query = at(&manifest, &["capabilities", "extensionQuery"]);
    assert_eq!(
        text(at(query, &["filtering"])),
        text(&doc(
            r#"[
                { "name": "Tag", "value": 1 },
                { "name": "ExtensionId", "value": 4 },
                { "name": "Category", "value": 5 },
                { "name": "ExtensionName", "value": 7 },
                { "name": "Target", "value": 8 },
                { "name": "Featured", "value": 9 },
                { "name": "SearchText", "value": 10 },
                { "name": "ExcludeWithFlags", "value": 12 }
            ]"#
        ))
    );
    assert_eq!(
        text(at(query, &["sorting"])),
        text(&doc(
            r#"[
                { "name": "NoneOrRelevance", "value": 0 },
                { "name": "LastUpdatedDate", "value": 1 },
                { "name": "Title", "value": 2 },
                { "name": "PublisherName", "value": 3 },
                { "name": "InstallCount", "value": 4 },
                { "name": "AverageRating", "value": 6 },
                { "name": "PublishedDate", "value": 10 },
                { "name": "WeightedRating", "value": 12 }
            ]"#
        ))
    );
    assert_eq!(
        text(at(query, &["flags", "11"])),
        text(&doc(r#"{ "name": "Unpublished", "value": 4096 }"#))
    );
    assert_eq!(
        text(at(query, &["flags", "13"])),
        text(&doc(
            r#"{
                "name": "IncludeLatestPrereleaseAndStableVersionOnly",
                "value": 65536
            }"#
        ))
    );
}

#[test]
fn gallery_manifest_encodes_repo_key_in_every_resource_url() {
    let manifest = build_gallery_manifest(&base(), "team/extensions");
    for resource in at(&manifest, &["resources"]).as_list().unwrap() {
        assert!(str_at(resource, &["id"]).contains("team%2Fextensions"));
    }
}

#[test]
fn legacy_download_upstream_path_validates_then_percent_encodes() {
    assert_eq!(
        legacy_download_upstream_path("Publisher Name", "My Extension", "1.0.0+build").unwrap(),
        "extensions/Publisher%20Name/My%20Extension/1.0.0%2Bbuild/download"
    );
    assert!(legacy_download_upstream_path("bad?publisher", "extension", "1.0.0").is_err());
}

#[test]
fn openvsx_asset_url_uses_gallery_adapter_sibling_and_platform() {
    assert_eq!(
        openvsx_asset_url(
            "https://open-vsx.example/vscode/gallery",
            "publisher",
            "extension",
            "1.2.3",
            "README.md",
            "linux-x64",
        )
        .unwrap(),
        "https://open-vsx.example/vscode/asset/publisher/extension/1.2.3/README.md?targetPlatform=linux-x64"
    );
    assert!(openvsx_asset_url(
        "https://open-vsx.example/not-gallery",
        "publisher",
        "extension",
        "1.2.3",
        "README.md",
        "universal",
    )
    .is_err());
}

#[test]
fn malformed_gallery_extension_cannot_leave_upstream_assets_in_response() {
    let malformed = doc(
        r#"{
            "results": [{ "extensions": [{
                "publisher": { "publisherName": "publisher" },
                "extensionName": "extension",
                "versions": [{ "assetUri": "https://upstream.example/assets" }]
            }] }]
        }"#,
    );
    assert!(rewrite_gallery_asset_urls(malformed, &base(), "extensions").is_err());
}

#[test]
fn gallery_rewrite_preserves_null_asset_references() {
    let response = doc(
        r#"{
            "results": [{ "extensions": [{
                "publisher": { "publisherName": "publisher" },
                "extensionName": "extension",
                "versions": [{
                    "version": "1.2.3",
                    "targetPlatform": "universal",
                    "assetUri": null,
                    "fallbackAssetUri": null,
                    "files": [{
                        "assetType": "Microsoft.VisualStudio.Code.Manifest",
                        "source": "https://upstream.example/manifest"
                    }]
                }]
            }] }]
        }"#,
    );

    let response = rewrite_gallery_asset_urls(response, &base(), "extensions").unwrap();

    let version = at(&response, &["results", "0", "extensions", "0", "versions", "0"]);
    assert!(matches!(version.get("assetUri"), Some(Json::Null)));
    assert!(matches!(version.get("fallbackAssetUri"), Some(Json::Null)));
    assert_eq!(
        str_at(version, &["files", "0", "source"]),
        "https://ak.example/vscode/extensions/asset/publisher/extension/1.2.3/universal/Microsoft.VisualStudio.Code.Manifest"
    );
}

#[test]
fn gallery_rewrite_rejects_non_string_non_null_asset_references() {
    for malformed_value in ["{}", "1"] {
        for field in ["assetUri", "fallbackAssetUri"] {
            let response = doc(&format!(
                r#"{{
                    "results": [{{ "extensions": [{{
                        "publisher": {{ "publisherName": "publisher" }},
                        "extensionName": "extension",
                        "versions": [{{
                            "version": "1.2.3",
                            "targetPlatform": "universal",
                            "{field}": {malformed_value}
                        }}]
                    }}] }}]
                }}"#
            ));

            let error = rewrite_gallery_asset_urls(response, &base(), "extensions")
                .expect_err("non-string asset fields must fail closed");
            assert_eq!(error.status(), 502, "{field}");
        }
    }
}

#[test]
fn gallery_rewrite_rejects_unsafe_upstream_coordinates() {
    let response = doc(
        r#"{
            "results": [{ "extensions": [{
                "publisher": { "publisherName": "publisher" },
                "extensionName": "extension",
                "versions": [{
                    "version": "1.2.3",
                    "targetPlatform": "../other-platform",
                    "assetUri": "https://upstream.example/assets"
                }]
            }] }]
        }"#,
    );

    assert!(rewrite_gallery_asset_urls(response, &base(), "extensions").is_err());
}

#[test]
fn gallery_path_segments_reject_url_and_cache_key_escapes() {
    for value in ["", ".", "..", "a/b", "a\\b", "a?b", "a#b", "a\u{7f}b"] {
        assert!(!is_safe_gallery_segment(value), "{value:?}");
    }
    assert!(is_safe_gallery_segment("Microsoft.VisualStudio.Services.VSIXPackage"));
    assert!(is_safe_gallery_segment("linux-x64"));
    // A coordinate is also a cache-path component, and a component past the
    // filesystem name limit is a storage error waiting to happen.
    assert!(is_safe_gallery_segment(&"x".repeat(255)));
    assert!(!is_safe_gallery_segment(&"x".repeat(256)));
    assert!(is_safe_target_platform("linux-x64"));
    assert!(is_safe_target_platform("future.web-2"));
    assert!(!is_safe_target_platform("Linux-X64"));
    assert!(!is_safe_target_platform("linux_x64"));
    assert!(!is_safe_target_platform(&"x".repeat(65)));
}

#[test]
fn gallery_metadata_cap_charges_the_full_parse_and_serialize_working_set() {
    assert_eq!(
        GALLERY_METADATA_MAX_BYTES,
        2 * 1024 * 1024,
        "gallery responses use the conservative gallery-specific wire cap"
    );
    assert_eq!(
        GALLERY_METADATA_BUDGET_RESERVATION_BYTES,
        GALLERY_METADATA_MAX_BYTES * 32,
        "raw Bytes + adversarially expanded JSON + serialized response need a whole-request charge"
    );
    assert_eq!(
        DEFAULT_PROXY_METADATA_BUDGET_BYTES / GALLERY_METADATA_BUDGET_RESERVATION_BYTES,
        16,
        "the default shared budget admits at most 16 cap-sized gallery queries"
    );

    let mut budget = ProxyMetadataBudget::new(GALLERY_METADATA_BUDGET_RESERVATION_BYTES * 2);
    let first = budget
        .try_reserve(GALLERY_METADATA_BUDGET_RESERVATION_BYTES)
        .expect("first gallery working set fits");
    let second = budget
        .try_reserve(GALLERY_METADATA_BUDGET_RESERVATION_BYTES)
        .expect("second gallery working set fits");
    assert!(
        budget
            .try_reserve(GALLERY_METADATA_BUDGET_RESERVATION_BYTES)
            .is_none(),
        "a third concurrent parsed gallery response exceeds its reserved working-set budget"
    );
    budget.release(first);
    budget.release(second);
    assert!(budget
        .try_reserve(GALLERY_METADATA_BUDGET_RESERVATION_BYTES * 2)
        .is_some());
}

/// The skeleton is the one gallery document sized by an extension's release
/// history, so its cap, its reservation multiple, and the per-channel
/// selection bound are pinned together.
#[test]
fn gallery_skeleton_bounds_are_pinned_to_the_measured_worst_case() {
    assert_eq!(
        GALLERY_SKELETON_MAX_BYTES,
        16 * 1024 * 1024,
        "the skeleton cap admits the measured 9.95 MiB worst-case version history"
    );
    assert_eq!(
        GALLERY_SKELETON_BUDGET_MULTIPLE, 4,
        "wire buffer, serde's full property materialization, and the retained projection"
    );
    assert_eq!(
        GALLERY_SKELETON_BUDGET_RESERVATION_BYTES,
        GALLERY_SKELETON_MAX_BYTES * GALLERY_SKELETON_BUDGET_MULTIPLE
    );
    assert_eq!(GALLERY_SKELETON_BUDGET_RESERVATION_BYTES, 64 * 1024 * 1024);
    assert_eq!(GALLERY_METADATA_BUDGET_RESERVATION_BYTES, 64 * 1024 * 1024);
    assert_eq!(GALLERY_VERSIONS_PER_CHANNEL, 30);
    assert_eq!(GALLERY_COMPOSITION_CONCURRENCY, 4);
    assert_eq!(
        GALLERY_SKELETON_QUERY_FLAGS, 17,
        "IncludeVersions | IncludeVersionProperties: lastUpdated plus PreRelease/Engine"
    );
    assert_eq!(GALLERY_LATEST_VERSION_QUERY_FLAGS, 1023);
    assert_eq!(
        GALLERY_EXACT_VERSION_QUERY_FLAGS, 1,
        "the per-gated-download lookup asks for nothing it does not read"
    );
}

fn request(
    criteria: &[(u64, &str)],
    page_size: Option<u64>,
    flags: u32,
) -> GalleryQueryRequest {
    GalleryQueryRequest {
        filters: vec![GalleryQueryFilter {
            criteria: criteria
                .iter()
                .map(|(filter_type, value)| GalleryQueryCriterion {
                    filter_type: *filter_type,
                    value: Some(value.to_string()),
                })
                .collect(),
            page_size,
        }],
        flags,
    }
}

/// Concurrency bounds simultaneity; these bound TOTAL work and total
/// resident bytes for one composed response.
#[test]
fn gallery_composition_bounds_total_work_and_resident_bytes() {
    assert_eq!(GALLERY_COMPOSED_IDENTITY_CAP, 50);
    assert_eq!(GALLERY_COMPOSED_EXTENSION_BYTES, 512 * 1024);
    assert_eq!(GALLERY_COMPOSED_QUALIFIER_CAP, 8);
    assert_eq!(
        GALLERY_COMPOSITION_BUDGET_RESERVATION_BYTES,
        GALLERY_COMPOSED_IDENTITY_CAP * GALLERY_COMPOSED_EXTENSION_BYTES * 2
    );
    assert_eq!(
        DEFAULT_PROXY_METADATA_BUDGET_BYTES / GALLERY_COMPOSITION_BUDGET_RESERVATION_BYTES,
        20,
        "the default shared budget admits at most 20 concurrent composed responses"
    );
    assert_eq!(GALLERY_COMPOSITION_ADMISSION, 20);
    assert_eq!(
        GALLERY_COMPOSITION_ADMISSION
            * GALLERY_COMPOSED_IDENTITY_CAP
            * GALLERY_COMPOSED_EXTENSION_BYTES,
        500 * 1024 * 1024,
        "concurrent composed pages accumulate at most 500 MiB before any is charged"
    );

    let page_size = |size: Option<u64>| gallery_composed_identity_limit(&request(&[], size, 1));
    assert_eq!(
        page_size(Some(10)),
        10,
        "a client that asked for ten extensions gets ten"
    );
    assert_eq!(page_size(Some(5000)), GALLERY_COMPOSED_IDENTITY_CAP);
    assert_eq!(page_size(Some(0)), 1);
    assert_eq!(page_size(None), GALLERY_COMPOSED_IDENTITY_CAP);
}

#[test]
fn gallery_composition_only_claims_pure_identity_version_queries() {
    let names = |criteria: &[GalleryCriterion]| {
        criteria
            .iter()
            .map(|criterion| (criterion.filter_type, criterion.value.clone()))
            .collect::<Vec<_>>()
    };

    // The VSCodium update follow-up, in the shape VS Code really sends it:
    // identity selectors interleaved with Target/ExcludeWithFlags qualifiers.
    let composition = gallery_composable_criteria(&request(
        &[
            (8, "Microsoft.VisualStudio.Code"),
            (7, "redhat.vscode-yaml"),
            (4, "guid-1"),
            (7, "redhat.vscode-yaml"),
            (12, "4096"),
        ],
        None,
        439,
    ))
    .expect("pure-identity version query composes");
    assert_eq!(
        names(composition.identities.as_slice()),
        vec![
            (7, "redhat.vscode-yaml".to_string()),
            (4, "guid-1".to_string())
        ],
        "client order is preserved and repeated identities collapse"
    );
    assert_eq!(
        names(composition.qualifiers.as_slice()),
        vec![
            (8, "Microsoft.VisualStudio.Code".to_string()),
            (12, "4096".to_string())
        ],
        "qualifiers do not select an extension, so they are carried, not counted"
    );

    // The identity list is truncated to the client's page, never refused.
    let paged = gallery_composable_criteria(&request(
        &[(7, "a.a"), (7, "b.b"), (7, "c.c")],
        Some(2),
        439,
    ))
    .expect("a paged identity query still composes");
    assert_eq!(
        names(paged.identities.as_slice()),
        vec![(7, "a.a".to_string()), (7, "b.b".to_string())]
    );

    let numbers = (0..=GALLERY_COMPOSED_QUALIFIER_CAP)
        .map(|index| index.to_string())
        .collect::<Vec<_>>();
    let mut criteria = numbers
        .iter()
        .map(|number| (12, number.as_str()))
        .collect::<Vec<_>>();
    criteria.push((7, "a.b"));

    for (case, body) in [
        (
            "search text is not an identity",
            request(&[(10, "yaml")], None, 439),
        ),
        (
            "no IncludeVersions leaves nothing to bound",
            request(&[(7, "a.b")], None, 438),
        ),
        (
            "IncludeLatestVersionOnly is already bounded upstream",
            request(&[(7, "a.b")], None, 951),
        ),
        (
            "an empty identity cannot address an extension",
            request(&[(7, "")], None, 439),
        ),
        (
            "no criteria at all",
            GalleryQueryRequest { filters: vec![], flags: 439 },
        ),
        (
            "more qualifiers than one composed query may replay",
            request(&criteria, None, 439),
        ),
    ] {
        assert!(gallery_composable_criteria(&body).is_none(), "{case}");
    }
}

fn property(key: &str, value: &str) -> GallerySkeletonWireProperty {
    GallerySkeletonWireProperty {
        key: Some(key.to_string()),
        value: Some(value.to_string()),
    }
}

/// One extension of a history with one version per `(version, platform,
/// prerelease)` triple, newest first.
fn wire_extension(
    publisher: &str,
    name: &str,
    entries: &[(&str, Option<&str>, bool)],
) -> GallerySkeletonWireExtension {
    GallerySkeletonWireExtension {
        publisher: Some(GallerySkeletonWirePublisher {
            publisher_name: Some(publisher.to_string()),
        }),
        extension_name: Some(name.to_string()),
        versions: entries
            .iter()
            .map(|(version, platform, prerelease)| GallerySkeletonWireVersion {
                version: version.to_string(),
                target_platform: platform.map(str::to_string),
                last_updated: Some("2024-01-02T03:04:05Z".to_string()),
                properties: Some(vec![
                    property(GALLERY_PRERELEASE_PROPERTY, &prerelease.to_string()),
                    property(GALLERY_ENGINE_PROPERTY, "^1.90.0"),
                    property(
                        "Microsoft.VisualStudio.Services.Links.Source",
                        "https://upstream.example/src",
                    ),
                ]),
            })
            .collect(),
    }
}

fn wire_document(extensions: Vec<GallerySkeletonWireExtension>) -> GallerySkeletonWireDocument {
    GallerySkeletonWireDocument {
        results: vec![GallerySkeletonWireResult { extensions }],
    }
}

fn parse_skeleton(entries: &[(&str, Option<&str>, bool)]) -> Vec<GallerySkeletonVersion> {
    gallery_skeleton_versions(
        wire_document(vec![wire_extension("RedHat", "VSCode-YAML", entries)]),
        SKELETON_PACKAGE,
    )
}

#[test]
fn gallery_skeleton_keeps_only_the_fields_synthesis_needs() {
    let parsed = parse_skeleton(&[("2.0.0", Some("LINUX-X64"), true), ("1.0.0", None, false)]);
    assert_eq!(parsed.len(), 2);
    assert_eq!(parsed[0].version, "2.0.0");
    assert_eq!(parsed[0].target_platform, "linux-x64");
    assert!(parsed[0].prerelease);
    assert_eq!(parsed[0].engine.as_deref(), Some("^1.90.0"));
    assert!(parsed[0].last_updated.is_some());
    // An absent targetPlatform is the universal build, not a missing one.
    assert_eq!(parsed[1].target_platform, DEFAULT_TARGET_PLATFORM);
    assert!(!parsed[1].prerelease);

    // A coordinate that would escape a path segment is dropped, not fatal.
    let mixed = parse_skeleton(&[
        ("1.0.0", Some("../escape"), false),
        ("1.0.0", Some("linux-x64"), false),
    ]);
    assert_eq!(mixed.len(), 1);
    assert_eq!(mixed[0].target_platform, "linux-x64");
}

/// A version list is only evidence about the extension it belongs to.
#[test]
fn gallery_skeleton_ignores_versions_of_other_extensions() {
    let document = wire_document(vec![
        wire_extension("Someone", "Else", &[("9.9.9", Some("linux-x64"), false)]),
        wire_extension("RedHat", "VSCode-YAML", &[("1.0.0", Some("linux-x64"), false)]),
    ]);
    let versions = gallery_skeleton_versions(document, SKELETON_PACKAGE);
    assert_eq!(versions.len(), 1);
    assert_eq!(versions[0].version, "1.0.0");
}

#[test]
fn gallery_selection_orders_by_publish_time_not_upstream_position() {
    let selected = select_bounded_gallery_versions(vec![
        skeleton_version("1.0.0", Some("linux-x64"), Some("2024-01-01T00:00:00Z")),
        skeleton_version("3.0.0", Some("linux-x64"), None),
        skeleton_version("2.0.0", Some("linux-x64"), Some("2025-01-01T00:00:00Z")),
        skeleton_version("2.0.0", Some("linux-x64"), Some("2025-01-01T00:00:00Z")),
    ]);
    assert_eq!(
        selected
            .iter()
            .map(|version| version.version.as_str())
            .collect::<Vec<_>>(),
        vec!["2.0.0", "1.0.0", "3.0.0"],
        "newest first, undated last, and a coordinate listed twice spends one slot"
    );
}

#[test]
fn gallery_selection_is_bounded_per_platform_and_channel() {
    let prerelease_versions = (0..GALLERY_VERSIONS_PER_CHANNEL + 5)
        .map(|index| format!("2.0.{index}"))
        .collect::<Vec<_>>();
    let mut entries = Vec::new();
    for version in &prerelease_versions {
        entries.push((version.as_str(), Some("linux-x64"), true));
        entries.push((version.as_str(), Some("win32-x64"), true));
    }
    // The one stable build sits below every pre-release.
    entries.push(("1.0.0", Some("linux-x64"), false));

    let selected = select_bounded_gallery_versions(parse_skeleton(&entries));
    let linux_prerelease = selected
        .iter()
        .filter(|version| version.target_platform == "linux-x64" && version.prerelease)
        .collect::<Vec<_>>();
    assert_eq!(linux_prerelease.len(), GALLERY_VERSIONS_PER_CHANNEL);
    assert_eq!(
        linux_prerelease[0].version, "2.0.0",
        "upstream newest-first order is preserved"
    );
    assert_eq!(
        selected
            .iter()
            .filter(|version| version.target_platform == "win32-x64")
            .count(),
        GALLERY_VERSIONS_PER_CHANNEL
    );
    assert!(
        selected
            .iter()
            .any(|version| version.version == "1.0.0" && !version.prerelease),
        "bucketing by channel keeps the stable build a positional cut would lose"
    );
}

#[test]
fn gallery_synthesis_owns_every_asset_reference_it_emits() {
    let parsed = parse_skeleton(&[("1.2.3", Some("linux-x64"), true), ("1.0.0", None, false)]);
    let platform_base = gallery_version_asset_base(
        &base(),
        "extensions",
        "RedHat",
        "VSCode-YAML",
        "1.2.3",
        "linux-x64",
    )
    .unwrap();
    let synthesized = synthesize_gallery_version(&parsed[0], &platform_base, 1023);
    assert_eq!(
        str_at(&synthesized, &["assetUri"]),
        "https://ak.example/vscode/extensions/asset/RedHat/VSCode-YAML/1.2.3/linux-x64"
    );
    assert_eq!(
        str_at(&synthesized, &["fallbackAssetUri"]),
        str_at(&synthesized, &["assetUri"])
    );
    assert_eq!(str_at(&synthesized, &["targetPlatform"]), "linux-x64");
    assert_eq!(
        text(at(&synthesized, &["properties"])),
        text(&doc(&format!(
            r#"[
                {{ "key": "{GALLERY_PRERELEASE_PROPERTY}", "value": "true" }},
                {{ "key": "{GALLERY_ENGINE_PROPERTY}", "value": "^1.90.0" }}
            ]"#
        ))),
        "only the two properties that decide channel and engine survive"
    );
    // VS Code filters `files` BEFORE it consults `assetUri`, so a version
    // without a file list is not installable however correct its URI is.
    let files = at(&synthesized, &["files"]).as_list().expect("synthesized files");
    assert_eq!(files.len(), 4);
    assert_eq!(
        text(&files[0]),
        text(&doc(&format!(
            r#"{{
                "assetType": "Microsoft.VisualStudio.Services.VSIXPackage",
                "source": "{platform_base}/Microsoft.VisualStudio.Services.VSIXPackage"
            }}"#
        )))
    );

    // Asset metadata mirrors what the client asked for.
    let bare = synthesize_gallery_version(&parsed[0], &platform_base, 1);
    for field in ["assetUri", "fallbackAssetUri", "files"] {
        assert!(bare.get(field).is_none(), "{field}");
    }

    let universal_base = gallery_version_asset_base(
        &base(),
        "extensions",
        "RedHat",
        "VSCode-YAML",
        "1.0.0",
        DEFAULT_TARGET_PLATFORM,
    )
    .unwrap();
    let universal = synthesize_gallery_version(&parsed[1], &universal_base, 1023);
    assert!(
        universal.get("targetPlatform").is_none(),
        "a universal build keeps upstream's own omitted-platform shape"
    );
    assert_eq!(
        text(at(&universal, &["properties"])),
        text(&doc(&format!(
            r#"[{{ "key": "{GALLERY_ENGINE_PROPERTY}", "value": "^1.90.0" }}]"#
        )))
    );
}

#[test]
fn gallery_results_envelope_counts_what_it_carries() {
    let composed = gallery_results_envelope(vec![doc(r#"{ "extensionName": "a" }"#)], None);
    assert_eq!(
        at(
            &composed,
            &["results", "0", "resultMetadata", "0", "metadataItems", "0", "count"]
        )
        .as_u64(),
        Some(1)
    );
    assert_eq!(
        str_at(&composed, &["results", "0", "extensions", "0", "extensionName"]),
        "a"
    );

    // An upstream page already counted every page of the query.
    let upstream = gallery_results_envelope(
        vec![doc(r#"{ "extensionName": "a" }"#)],
        Some(doc(
            r#"[{
                "metadataType": "ResultCount",
                "metadataItems": [{ "name": "TotalCount", "count": 4096 }]
            }]"#,
        )),
    );
    assert_eq!(
        at(
            &upstream,
            &["results", "0", "resultMetadata", "0", "metadataItems", "0", "count"]
        )
        .as_u64(),
        Some(4096)
    );
}

#[test]
fn gallery_query_flag_rewrite_refuses_a_body_it_cannot_reshape() {
    let versions_and_latest_only = 1 | 512;
    let rewritten = gallery_query_with_flags(
        b"{\"filters\":[],\"flags\":439,\"assetTypes\":[\"x\"]}",
        versions_and_latest_only,
    )
    .expect("an object body is reshaped in place");
    let rewritten = Json::parse(&rewritten).unwrap();
    assert_eq!(
        at(&rewritten, &["flags"]).as_u64(),
        Some(versions_and_latest_only as u64)
    );
    assert_eq!(
        str_at(&rewritten, &["assetTypes", "0"]),
        "x",
        "every other field the client sent is preserved"
    );

    // A body that is valid JSON but not an object has no `flags` member to
    // rewrite, and one that is not JSON at all never had one.
    assert!(gallery_query_with_flags(b"[1,2]", 1).is_none());
    assert!(gallery_query_with_flags(b"nope", 1).is_none());
    assert_eq!(gallery_query_flags(b"{\"flags\":439}"), Some(439));
    assert!(gallery_query_flags(b"{}").is_none());
}
