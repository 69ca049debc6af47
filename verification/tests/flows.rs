use artifact_keeper::bounds::{
    metadata_limits, skeleton_limits, ProxyMetadataBudget, GALLERY_COMPOSED_IDENTITY_CAP,
};
use artifact_keeper::compose::{
    compose_gallery_extension, compose_gallery_query, composition_subject, detail_query,
    gallery_latest_walk_back, skeleton_query, sort_gallery_versions_newest_first,
    walk_back_candidates,
};
use artifact_keeper::coordinate::normal_target_platform;
use artifact_keeper::envelope::{first_extension_of, first_metadata_of, gallery_results_envelope};
use artifact_keeper::error::GalleryError;
use artifact_keeper::gallery::{
    after_forward, after_narrow, client_query_flags, exact_version_lookup, gallery_age_gate_seam,
    gallery_extension_query, gallery_latest_version, latest_version_query, next_asset_stage,
    post_gallery_query, publish_evidence, read_gallery_document, render_gallery_response,
    AssetStage, GateSurface, LatestStep, QueryStep,
};
use artifact_keeper::gate::{any_withheld, apply_gate, next_gate_batch};
use artifact_keeper::json::{Json, Member};
use artifact_keeper::query::{
    gallery_query_qualifiers, gallery_response_identities, GalleryCriterion,
    GalleryQueryCriterion, GalleryQueryFilter, GalleryQueryRequest, GALLERY_SKELETON_QUERY_FLAGS,
};
use artifact_keeper::repository::{RepoInfo, RequestBaseUrl};
use artifact_keeper::response::{gallery_extension_identity, rewrite_gallery_asset_urls};
use artifact_keeper::skeleton::{
    select_bounded_gallery_versions, sort_skeleton_newest_first, GallerySkeletonVersion,
};
use artifact_keeper::time::{gallery_parse_last_updated, newest_first_order};
use artifact_keeper::urls::{
    gallery_asset, gallery_item, gallery_upstream, gallery_version_asset_base, gallery_vspackage,
};

fn json(text: &str) -> Json {
    Json::parse(text.as_bytes()).expect("the document is JSON")
}

fn written(json: &Json) -> String {
    String::from_utf8(json.duplicate().encode()).expect("JSON is text")
}

fn member<'a>(json: &'a Json, key: &str) -> &'a Json {
    json.get(key).expect("a member")
}

fn names(records: &[Json]) -> Vec<String> {
    records
        .iter()
        .map(|record| record.get_str("version").expect("a version").to_string())
        .collect()
}

fn server() -> RequestBaseUrl {
    RequestBaseUrl("https://ak.example/".to_string())
}

fn remote(upstream_url: Option<&str>) -> RepoInfo {
    RepoInfo {
        id: 1,
        key: "ext".to_string(),
        storage_path: String::new(),
        storage_backend: "filesystem".to_string(),
        repo_type: "remote".to_string(),
        upstream_url: upstream_url.map(str::to_string),
        format: "vscode".to_string(),
        promotion_only: false,
        age_gate_enabled: true,
        age_gate_min_age_days: 7,
        age_gate_mode: "upstream_publish_time".to_string(),
        curation_enabled: false,
        curation_default_action: "allow".to_string(),
    }
}

fn build(
    version: &str,
    platform: &str,
    last_updated: Option<&str>,
    prerelease: bool,
) -> GallerySkeletonVersion {
    GallerySkeletonVersion {
        version: version.to_string(),
        target_platform: normal_target_platform(Some(platform)),
        last_updated: last_updated.and_then(gallery_parse_last_updated),
        prerelease,
        engine: None,
    }
}

fn criterion(filter_type: u64, value: &str) -> GalleryCriterion {
    GalleryCriterion { filter_type, value: value.to_string() }
}

fn query(criteria: &[(u64, Option<&str>)], page_size: Option<u64>, flags: u32) -> GalleryQueryRequest {
    GalleryQueryRequest {
        filters: vec![GalleryQueryFilter {
            criteria: criteria
                .iter()
                .map(|(filter_type, value)| GalleryQueryCriterion {
                    filter_type: *filter_type,
                    value: value.map(str::to_string),
                })
                .collect(),
            page_size,
        }],
        flags,
    }
}

#[test]
fn percent_encoding_keeps_one_segment() {
    assert_eq!(gallery_item("a-._~Z9"), "/repositories/a-._~Z9");
    assert_eq!(
        gallery_item("ä b/c?d&e=f%"),
        "/repositories/%C3%A4%20b%2Fc%3Fd%26e%3Df%25"
    );
    assert_eq!(gallery_item(""), "/repositories/");
}

#[test]
fn documents_are_read_and_written_by_serde_json() {
    let document = json("{ \"b\": 1, \"a\": [null, true, -3, 1.5, \"\\u00e4\"] }");
    assert_eq!(written(&document), "{\"a\":[null,true,-3,1.5,\"ä\"],\"b\":1}");
    let items = document.get_list("a").unwrap();
    assert_eq!(member(&document, "b").as_u64(), Some(1));
    assert_eq!(items[2].as_u64(), None);
    assert_eq!(items[3].as_u64(), None);
    assert_eq!(items[4].as_str(), Some("ä"));
    assert_eq!(written(&Json::signed(-3)), "-3");
    assert_eq!(Json::signed(3).as_u64(), Some(3));
    assert_eq!(Json::signed(-3).as_u64(), None);
    assert_eq!(Json::unsigned(u64::MAX).as_u64(), Some(u64::MAX));
    assert!(Json::parse(b"{").is_none());
    assert!(Json::parse(b"").is_none());
    let deep = |depth: usize| format!("{}{}", "[".repeat(depth), "]".repeat(depth));
    assert!(Json::parse(deep(127).as_bytes()).is_some());
    assert!(Json::parse(deep(128).as_bytes()).is_none());
}

#[test]
fn an_object_has_one_member_for_each_key() {
    // A key that the bytes have twice: the later one counts.
    assert_eq!(written(&json(r#"{"k":1,"k":2}"#)), r#"{"k":2}"#);
    let mut object = Json::Object(vec![
        Member { key: "k".to_string(), value: Json::unsigned(1) },
        Member { key: "k".to_string(), value: Json::unsigned(2) },
    ]);
    assert_eq!(member(&object, "k").as_u64(), Some(1));
    assert_eq!(written(&object), r#"{"k":1}"#);
    object.insert("k", Json::text("x"));
    assert_eq!(object.get_str("k"), Some("x"));
    assert_eq!(object.take_list("k").map(|items| items.len()), None);
    object.insert("k", Json::list(vec![Json::Null, Json::Bool(true)]));
    assert_eq!(object.take_list("k").map(|items| items.len()), Some(2));
    assert_eq!(written(&object), r#"{"k":null}"#);
}

#[test]
fn values_of_serde_json_are_taken_over() {
    let value: serde_json::Value = serde_json::from_str(r#"{"a":{"b":[1,"x",null]}}"#).unwrap();
    assert_eq!(written(&Json::from_value(value)), r#"{"a":{"b":[1,"x",null]}}"#);
}

#[test]
fn publish_times_are_moments_in_utc() {
    let time = gallery_parse_last_updated("2024-01-02T03:04:05+02:00").unwrap();
    assert_eq!((time.seconds(), time.nanos()), (1_704_157_445, 0));
    assert_eq!(time.to_rfc3339(), "2024-01-02T01:04:05+00:00");
    assert_eq!(gallery_parse_last_updated("2024-01-02T01:04:05Z"), Some(time));

    let fraction = gallery_parse_last_updated("2024-01-02T03:04:05.5Z").unwrap();
    assert_eq!(fraction.nanos(), 500_000_000);
    assert_eq!(fraction.to_rfc3339(), "2024-01-02T03:04:05.500+00:00");

    let leap = gallery_parse_last_updated("2016-12-31T23:59:60Z").unwrap();
    assert_eq!((leap.seconds(), leap.nanos()), (1_483_228_799, 1_000_000_000));
    assert_eq!(gallery_parse_last_updated(&leap.to_rfc3339()), Some(leap));

    for text in ["", "yesterday", "2024-01-02", "2024-01-02T03:04:05", "2024-13-02T03:04:05Z"] {
        assert_eq!(gallery_parse_last_updated(text), None, "{text}");
    }
    // An offset can move a moment out of the years that the text form has.
    let early = gallery_parse_last_updated("0000-01-01T00:00:00+23:59").unwrap();
    assert_eq!(early.seconds(), -62_167_305_540);
    assert_eq!(gallery_parse_last_updated(&early.to_rfc3339()), None);
}

#[test]
fn dated_entries_come_newest_first_and_ties_keep_their_order() {
    let old = gallery_parse_last_updated("2024-01-01T00:00:00Z");
    let new = gallery_parse_last_updated("2024-01-01T00:00:00.000000001Z");
    assert_eq!(newest_first_order(&vec![None, old, new, old, None]), vec![2, 1, 3, 0, 4]);

    let sorted = sort_gallery_versions_newest_first(vec![
        json(r#"{"version":"undated"}"#),
        json(r#"{"version":"old","lastUpdated":"2023-01-01T00:00:00Z"}"#),
        json(r#"{"version":"new","lastUpdated":"2024-01-01T00:00:00Z"}"#),
        json(r#"{"version":"broken","lastUpdated":7}"#),
    ]);
    assert_eq!(names(&sorted), ["new", "old", "undated", "broken"]);

    let sorted = sort_skeleton_newest_first(vec![
        build("a", "", None, false),
        build("b", "", Some("2023-01-01T00:00:00Z"), false),
        build("c", "", Some("2024-01-01T00:00:00Z"), true),
        build("d", "", Some("2023-01-01T00:00:00Z"), false),
    ]);
    let order: Vec<&str> = sorted.iter().map(|entry| entry.version.as_str()).collect();
    assert_eq!(order, ["c", "b", "d", "a"]);
}

#[test]
fn every_error_has_its_status_and_its_text() {
    let mut repo = remote(None);
    repo.repo_type = "hosted".to_string();
    let expected: [(GalleryError, u16, Option<&str>); 23] = [
        (
            GalleryError::UnsupportedRepositoryType,
            501,
            Some("VS Code gallery routes require a Remote repository (ext is hosted)"),
        ),
        (
            GalleryError::PrivateRepository,
            403,
            Some("VS Code gallery routes are public-only: repository ext is private. Gallery clients cannot present a credential, so private galleries are not supported. Make the repository public or use the /vscode/ext/extensions/... routes."),
        ),
        (GalleryError::RepositoryNotFound, 404, Some("Repository not found")),
        (
            GalleryError::MissingUpstream,
            502,
            Some("Remote VS Code repository is missing its Open VSX gallery upstream URL"),
        ),
        (
            GalleryError::InvalidUpstream,
            502,
            Some("Remote VS Code upstream URL must end in /vscode/gallery"),
        ),
        (
            GalleryError::NoAssetEndpoint,
            502,
            Some("Open VSX upstream URL must end in /vscode/gallery"),
        ),
        (GalleryError::InvalidPath, 400, Some("Invalid VS Code gallery path")),
        (GalleryError::InvalidTargetPlatform, 400, Some("Invalid VS Code target platform")),
        (GalleryError::InvalidQueryJson, 400, Some("Invalid VS Code gallery query JSON")),
        (
            GalleryError::InvalidResponse,
            502,
            Some("Open VSX gallery returned an invalid extensionquery response"),
        ),
        (
            GalleryError::ResponseTooLarge,
            502,
            Some("Open VSX gallery response exceeded the gateway's buffered-metadata ceiling"),
        ),
        (GalleryError::MalformedJson, 502, Some("Open VSX gallery returned malformed JSON")),
        (GalleryError::ProxyUnavailable, 503, Some("Proxy service is unavailable")),
        (GalleryError::ExtensionNotFound, 404, Some("Extension not found")),
        (GalleryError::VersionNotFound, 404, Some("Extension version not found")),
        (GalleryError::MetadataGateUnavailable, 503, None),
        (GalleryError::AssetGateUnavailable, 503, None),
        (GalleryError::LegacyGateUnavailable, 503, None),
        (GalleryError::EmptyPackage, 400, Some("Empty VSIX file")),
        (GalleryError::MissingPublisher, 400, Some("Missing x-publisher header")),
        (GalleryError::MissingExtensionName, 400, Some("Missing x-extension-name header")),
        (GalleryError::MissingExtensionVersion, 400, Some("Missing x-extension-version header")),
        (GalleryError::VersionExists, 409, Some("Extension version already exists")),
    ];
    for (error, status, text) in expected {
        assert_eq!(error.status(), status, "{error:?}");
        assert_eq!(error.message(&repo).as_deref(), text, "{error:?}");
        assert_eq!(error.surface().is_some(), text.is_none(), "{error:?}");
    }
    assert_eq!(
        GalleryError::MetadataGateUnavailable.surface().as_deref(),
        Some("VS Code gallery metadata")
    );
    assert_eq!(
        GalleryError::AssetGateUnavailable.surface().as_deref(),
        Some("VS Code gallery asset")
    );
}

#[test]
fn an_upstream_is_had_of_public_remote_repositories_only() {
    let url = "https://open-vsx.org/vscode/gallery//";
    let repo = remote(Some(url));
    assert_eq!(gallery_upstream(&repo, Some(true)), Ok(url));
    assert_eq!(gallery_upstream(&repo, Some(false)), Err(GalleryError::PrivateRepository));
    assert_eq!(gallery_upstream(&repo, None), Err(GalleryError::RepositoryNotFound));
    assert_eq!(
        gallery_upstream(&remote(None), Some(true)),
        Err(GalleryError::MissingUpstream)
    );
    assert_eq!(
        gallery_upstream(&remote(Some("https://open-vsx.org/gallery")), Some(true)),
        Err(GalleryError::InvalidUpstream)
    );
    let mut hosted = remote(Some(url));
    hosted.repo_type = "hosted".to_string();
    assert_eq!(
        gallery_upstream(&hosted, None),
        Err(GalleryError::UnsupportedRepositoryType)
    );

    assert_eq!(post_gallery_query(&repo, Some(true), b"{}", true), Ok(url));
    assert_eq!(
        post_gallery_query(&repo, Some(true), b"{", false),
        Err(GalleryError::InvalidQueryJson)
    );
    assert_eq!(
        post_gallery_query(&repo, Some(true), b"{}", false),
        Err(GalleryError::ProxyUnavailable)
    );
    assert_eq!(
        post_gallery_query(&repo, Some(false), b"{", false),
        Err(GalleryError::PrivateRepository)
    );
}

#[test]
fn one_cached_package_has_one_source() {
    let upstream = "https://up.example/vscode/gallery/";
    let (coordinate, bare) =
        gallery_vspackage(upstream, "ext", "redhat", "yaml", "1.0.0", None).unwrap();
    let (_, named) =
        gallery_vspackage(upstream, "ext", "redhat", "yaml", "1.0.0", Some(" Universal ")).unwrap();
    assert_eq!(coordinate.target_platform, "universal");
    assert_eq!(
        bare.upstream_url,
        "https://up.example/vscode/gallery/publishers/redhat/vsextensions/yaml/1.0.0/vspackage?targetPlatform=universal"
    );
    assert_eq!(bare.cache_path, "gallery/redhat/yaml/1.0.0/universal/vspackage");
    assert_eq!(bare.default_content_type, "application/vsix");
    assert_eq!(bare.upstream_url, named.upstream_url);
    assert_eq!(bare.cache_path, named.cache_path);
    let (_, other) =
        gallery_vspackage(upstream, "ext", "redhat", "yaml", "1.0.0", Some("linux-x64")).unwrap();
    assert_ne!(bare.cache_path, other.cache_path);
    assert_eq!(
        gallery_vspackage(upstream, "ext", "a/b", "yaml", "1.0.0", Some("!")).err(),
        Some(GalleryError::InvalidPath)
    );
    assert_eq!(
        gallery_vspackage(upstream, "ext", "redhat", "yaml", "1.0.0", Some("!")).err(),
        Some(GalleryError::InvalidTargetPlatform)
    );
}

#[test]
fn assets_are_kept_apart_by_their_type() {
    let upstream = "https://up.example/vscode/gallery";
    let (coordinate, source) =
        gallery_asset(upstream, "ext", "redhat", "yaml", "1.0.0", "WIN32-X64", "abc").unwrap();
    assert_eq!(coordinate.repo_key, "ext");
    assert_eq!(coordinate.target_platform, "win32-x64");
    assert_eq!(
        source.upstream_url,
        "https://up.example/vscode/asset/redhat/yaml/1.0.0/abc?targetPlatform=win32-x64"
    );
    assert_eq!(
        source.cache_path,
        "gallery/redhat/yaml/1.0.0/win32-x64/asset-ba7816bf8f01cfea414140de5dae2223b00361a396177a9cb410ff61f20015ad"
    );
    assert_eq!(source.default_content_type, "application/octet-stream");
    let (_, other) =
        gallery_asset(upstream, "ext", "redhat", "yaml", "1.0.0", "win32-x64", "abd").unwrap();
    assert_ne!(source.cache_path, other.cache_path);
    assert_eq!(
        gallery_asset(upstream, "ext", "redhat", "yaml", "1.0.0", "universal", "..").err(),
        Some(GalleryError::InvalidPath)
    );
    assert_eq!(
        gallery_asset("https://up.example/x", "ext", "p", "n", "1", "universal", "t").err(),
        Some(GalleryError::NoAssetEndpoint)
    );
    let linux = gallery_version_asset_base(&server(), "ext", "p", "n", "1", "linux-x64");
    let arm = gallery_version_asset_base(&server(), "ext", "p", "n", "1", "linux-arm64");
    assert_eq!(
        linux.as_deref(),
        Ok("https://ak.example/vscode/ext/asset/p/n/1/linux-x64")
    );
    assert_ne!(linux, arm);
}

#[test]
fn an_extension_query_is_composed_or_sent_on() {
    let named = query(&[(7, Some("redhat.yaml")), (8, Some("vscode"))], None, 439);
    match gallery_extension_query(&Some(named)) {
        QueryStep::Compose { composition, result_metadata } => {
            assert_eq!(composition.identities.len(), 1);
            assert_eq!(composition.identities[0].value, "redhat.yaml");
            assert_eq!(composition.qualifiers.len(), 1);
            assert_eq!(composition.qualifiers[0].filter_type, 8);
            assert!(result_metadata.is_none());
        }
        _ => panic!("a query by name is composed"),
    }
    let search = query(&[(10, Some("yaml"))], None, 439);
    assert!(matches!(gallery_extension_query(&Some(search)), QueryStep::Forward));
    assert!(matches!(gallery_extension_query(&None), QueryStep::Forward));
    assert_eq!(client_query_flags(&None, br#"{"flags":439}"#), 439);
    assert_eq!(client_query_flags(&None, br#"{"flags":4294967296}"#), 0);
    assert_eq!(client_query_flags(&None, b"nope"), 0);
    assert_eq!(
        client_query_flags(&Some(query(&[], None, 7)), br#"{"flags":439}"#),
        7
    );
}

#[test]
fn an_answer_over_the_ceiling_is_narrowed_once() {
    let body = br#"{"flags":439,"filters":[]}"#;
    let document = json(r#"{"results":[]}"#);
    assert!(matches!(after_forward(439, body, Some(document)), Ok(QueryStep::Serve(_))));
    match after_forward(439, body, None) {
        Ok(QueryStep::Narrow(narrower)) => {
            assert_eq!(narrower, br#"{"filters":[],"flags":950}"#.to_vec());
        }
        _ => panic!("versions were asked for"),
    }
    assert_eq!(after_forward(438, body, None).err(), Some(GalleryError::ResponseTooLarge));
    assert_eq!(after_forward(439, b"[]", None).err(), Some(GalleryError::ResponseTooLarge));
}

#[test]
fn a_narrowed_answer_is_composed_under_the_clients_qualifiers() {
    let identities = json(
        r#"{"results":[{"extensions":[
            {"publisher":{"publisherName":"a"},"extensionName":"b"},
            {"publisher":{"publisherName":"a"},"extensionName":"b"},
            {"publisher":{"publisherName":"c"},"extensionName":"d"}],
            "resultMetadata":[{"metadataType":"ResultCount","metadataItems":[{"name":"TotalCount","count":4096}]}]}]}"#,
    );
    let request = Some(query(&[(10, Some("yaml")), (8, Some("vscode"))], Some(20), 439));
    match after_narrow(&request, &identities) {
        Ok(QueryStep::Compose { composition, result_metadata }) => {
            let named: Vec<&str> =
                composition.identities.iter().map(|identity| identity.value.as_str()).collect();
            assert_eq!(named, ["a.b", "c.d"]);
            assert_eq!(composition.qualifiers.len(), 1);
            let page = compose_gallery_query(
                vec![None, Some(json(r#"{"extensionName":"d"}"#))],
                result_metadata,
            );
            assert_eq!(
                written(&page),
                r#"{"results":[{"extensions":[{"extensionName":"d"}],"resultMetadata":[{"metadataItems":[{"count":4096,"name":"TotalCount"}],"metadataType":"ResultCount"}]}]}"#
            );
        }
        _ => panic!("identities are composed"),
    }
    // One extension is the whole page that is asked for.
    match after_narrow(&Some(query(&[], Some(1), 439)), &identities) {
        Ok(QueryStep::Compose { composition, .. }) => assert_eq!(composition.identities.len(), 1),
        _ => panic!("identities are composed"),
    }
    let values: Vec<String> = (0..9).map(|i| format!("q{i}")).collect();
    let nine: Vec<(u64, Option<&str>)> = values.iter().map(|v| (8, Some(v.as_str()))).collect();
    assert!(gallery_query_qualifiers(&query(&nine[..8], None, 439)).is_some());
    assert_eq!(
        after_narrow(&Some(query(&nine, None, 439)), &identities).err(),
        Some(GalleryError::ResponseTooLarge)
    );
    assert_eq!(
        after_narrow(&None, &json(r#"{"results":[{}]}"#)).err(),
        Some(GalleryError::InvalidResponse)
    );
    assert_eq!(gallery_response_identities(&identities, 0).map(|named| named.len()), Ok(0));
    assert_eq!(
        gallery_response_identities(&identities, GALLERY_COMPOSED_IDENTITY_CAP)
            .map(|named| named.len()),
        Ok(2)
    );
    assert_eq!(
        gallery_response_identities(&json(r#"{"results":[{"extensions":[{}]}]}"#), 5)
            .map(|named| named.len()),
        Err(GalleryError::InvalidResponse)
    );
}

#[test]
fn sub_queries_repeat_the_qualifiers() {
    let identity = criterion(7, "redhat.yaml");
    let qualifiers = vec![criterion(8, "vscode"), criterion(12, "4096")];
    assert_eq!(
        String::from_utf8(detail_query(&identity, &qualifiers, 439)).unwrap(),
        r#"{"filters":[{"criteria":[{"filterType":7,"value":"redhat.yaml"},{"filterType":8,"value":"vscode"},{"filterType":12,"value":"4096"}],"pageNumber":1,"pageSize":1,"sortBy":0,"sortOrder":0}],"flags":951}"#
    );
    assert_eq!(
        String::from_utf8(skeleton_query(&identity, &vec![], GALLERY_SKELETON_QUERY_FLAGS)).unwrap(),
        r#"{"filters":[{"criteria":[{"filterType":7,"value":"redhat.yaml"}],"pageNumber":1,"pageSize":1,"sortBy":0,"sortOrder":0}],"flags":17}"#
    );
    let (identity, body) = latest_version_query("redhat", "yaml").unwrap();
    assert_eq!((identity.filter_type, identity.value.as_str()), (7, "redhat.yaml"));
    assert!(String::from_utf8(body).unwrap().ends_with(r#""flags":1023}"#));
    assert!(latest_version_query("red/hat", "yaml").is_err());
    let lookup = exact_version_lookup("RedHat", "YAML", "1.0.0", "WIN32-X64");
    assert_eq!(lookup.package, "redhat.yaml");
    assert_eq!(lookup.coordinate, "1.0.0@win32-x64");
    assert_eq!(
        String::from_utf8(lookup.query).unwrap(),
        r#"{"filters":[{"criteria":[{"filterType":7,"value":"redhat.yaml"}],"pageNumber":1,"pageSize":1,"sortBy":0,"sortOrder":0}],"flags":1}"#
    );
}

fn detail() -> Json {
    json(
        r#"{"publisher":{"publisherName":"RedHat"},"extensionName":"yaml","displayName":"YAML",
            "versions":[
                {"version":"3.0.0-rc.1","lastUpdated":"2024-06-01T00:00:00Z","origin":"detail"},
                {"version":"4.0.0","lastUpdated":"2025-06-01T00:00:00Z","origin":"detail",
                 "assetUri":"https://up.example/a","fallbackAssetUri":null,
                 "files":[{"assetType":"Icon","source":"https://up.example/a/Icon"},
                          {"source":"https://up.example/a/README.md?x=/y"},
                          {"assetType":"kept"}]}]}"#,
    )
}

fn history() -> Vec<GallerySkeletonVersion> {
    vec![
        build("1.5.0", "", Some("2023-01-01T00:00:00Z"), false),
        build("3.0.0-rc.1", "", Some("2024-06-01T00:00:00Z"), true),
        build("2.0.0-rc.1", "", Some("2024-03-01T00:00:00Z"), true),
    ]
}

#[test]
fn composing_merges_detail_and_history_newest_first() {
    assert_eq!(composition_subject(&detail()).as_deref(), Ok("redhat.yaml"));
    assert_eq!(
        composition_subject(&json(r#"{"extensionName":"yaml"}"#)).err(),
        Some(GalleryError::InvalidResponse)
    );
    let composed = compose_gallery_extension(detail(), history(), &server(), "ext", 439).unwrap();
    assert_eq!(composed.get_str("displayName"), Some("YAML"));
    let versions = composed.get_list("versions").unwrap();
    assert_eq!(names(versions), ["4.0.0", "3.0.0-rc.1", "2.0.0-rc.1", "1.5.0"]);
    assert_eq!(versions[1].get_str("origin"), Some("detail"));
    assert_eq!(versions[2].get_str("origin"), None);
    assert_eq!(
        versions[3].get_str("assetUri"),
        Some("https://ak.example/vscode/ext/asset/RedHat/yaml/1.5.0/universal")
    );
    assert_eq!(versions[3].get_str("lastUpdated"), Some("2023-01-01T00:00:00+00:00"));
    assert_eq!(versions[3].get_list("files").map(|files| files.len()), Some(4));
    assert_eq!(
        gallery_extension_identity(&composed).map(|(_, _, package)| package).as_deref(),
        Some("redhat.yaml")
    );

    let bare = compose_gallery_extension(detail(), history(), &server(), "ext", 17).unwrap();
    let built = &bare.get_list("versions").unwrap()[3];
    assert!(built.get("assetUri").is_none());
    assert!(built.get("files").is_none());

    let unnamed = json(
        r#"{"publisher":{"publisherName":"a"},"extensionName":"b","versions":[{"targetPlatform":"x"}]}"#,
    );
    assert_eq!(
        compose_gallery_extension(unnamed, vec![], &server(), "ext", 439).err(),
        Some(GalleryError::InvalidResponse)
    );
    // Of detailed records with one coordinate, the last counts, once.
    let twice = json(
        r#"{"publisher":{"publisherName":"a"},"extensionName":"b","versions":[
            {"version":"9","origin":"first"},{"version":"9","targetPlatform":"Universal","origin":"last"}]}"#,
    );
    let composed = compose_gallery_extension(twice, vec![], &server(), "ext", 439).unwrap();
    let versions = composed.get_list("versions").unwrap();
    assert_eq!(versions.len(), 1);
    assert_eq!(versions[0].get_str("origin"), Some("last"));
    // Without a list of versions, the history alone is served.
    let listless = json(r#"{"publisher":{"publisherName":"a"},"extensionName":"b"}"#);
    let composed = compose_gallery_extension(listless, history(), &server(), "ext", 439).unwrap();
    assert_eq!(
        names(composed.get_list("versions").unwrap()),
        ["3.0.0-rc.1", "2.0.0-rc.1", "1.5.0"]
    );
}

#[test]
fn composing_bounds_the_history() {
    let history: Vec<GallerySkeletonVersion> = (0..40)
        .map(|i| build(&format!("1.{i}.0"), "", Some(&format!("2024-01-01T00:{i:02}:00Z")), false))
        .collect();
    let listless = json(r#"{"publisher":{"publisherName":"a"},"extensionName":"b"}"#);
    let composed = compose_gallery_extension(listless, history, &server(), "ext", 439).unwrap();
    let versions = names(composed.get_list("versions").unwrap());
    assert_eq!(versions.len(), 30);
    assert_eq!(versions[0], "1.39.0");
    assert_eq!(versions[29], "1.10.0");
}

#[test]
fn what_is_rendered_leads_to_this_server() {
    let page = gallery_results_envelope(vec![detail()], None);
    let body = render_gallery_response(page, &server(), "ext").unwrap();
    let page = read_gallery_document(&body).unwrap();
    let extension = first_extension_of(&page).unwrap();
    let latest = &extension.get_list("versions").unwrap()[1];
    let root = "https://ak.example/vscode/ext/asset/RedHat/yaml/4.0.0/universal";
    assert_eq!(latest.get_str("assetUri"), Some(root));
    assert_eq!(written(member(latest, "fallbackAssetUri")), "null");
    let files = latest.get_list("files").unwrap();
    assert_eq!(files[0].get_str("source"), Some(format!("{root}/Icon").as_str()));
    assert_eq!(files[1].get_str("source"), Some(format!("{root}/README.md").as_str()));
    assert_eq!(written(&files[2]), r#"{"assetType":"kept"}"#);
    assert!(!String::from_utf8(body).unwrap().contains("up.example"));
    assert_eq!(
        render_gallery_response(json("{}"), &server(), "ext").err(),
        Some(GalleryError::InvalidResponse)
    );
    assert_eq!(read_gallery_document(b"{").err(), Some(GalleryError::MalformedJson));
    assert_eq!(read_gallery_document(b"{}").err(), Some(GalleryError::InvalidResponse));
    // What was rewritten is not changed by rewriting it again.
    let again = rewrite_gallery_asset_urls(page.duplicate(), &server(), "ext").unwrap();
    assert_eq!(written(&again), written(&page));
    assert!(first_metadata_of(&page).is_some());
}

#[test]
fn the_age_gate_takes_versions_extensions_and_counts() {
    let page = json(
        r#"{"results":[{"extensions":[
            {"publisher":{"publisherName":"A"},"extensionName":"b","versions":[
                {"version":"2.0.0","lastUpdated":"2025-01-01T00:00:00Z"},
                {"version":"1.0.0","targetPlatform":"LINUX-X64"}]},
            {"publisher":{"publisherName":"c"},"extensionName":"d","versions":[{"version":"9.0.0"}]},
            {"publisher":{"publisherName":"e"},"extensionName":"f","versions":[]}],
            "resultMetadata":[{"metadataType":"ResultCount","metadataItems":[{"name":"TotalCount","count":99}]}]}]}"#,
    );
    let first = next_gate_batch(&page, 0).unwrap().unwrap();
    assert_eq!(first.package, "a.b");
    assert_eq!(first.candidates.len(), 2);
    assert_eq!(first.candidates[0].coordinate, "2.0.0@universal");
    assert_eq!(
        first.candidates[0].published_at,
        gallery_parse_last_updated("2025-01-01T00:00:00Z")
    );
    assert_eq!(first.candidates[1].coordinate, "1.0.0@linux-x64");
    assert_eq!(first.candidates[1].published_at, None);
    assert_eq!(next_gate_batch(&page, 1).unwrap().unwrap().package, "c.d");
    assert_eq!(next_gate_batch(&page, 2).unwrap().unwrap().candidates.len(), 0);
    assert!(next_gate_batch(&page, 3).unwrap().is_none());

    let verdicts = vec![
        vec!["2.0.0@universal".to_string()],
        vec!["9.0.0@universal".to_string()],
        vec![],
    ];
    assert!(any_withheld(&verdicts));
    assert!(!any_withheld(&vec![vec![], vec![]]));
    let gated = apply_gate(page.duplicate(), &verdicts).unwrap();
    assert_eq!(
        written(&gated),
        r#"{"results":[{"extensions":[{"extensionName":"b","publisher":{"publisherName":"A"},"versions":[{"targetPlatform":"LINUX-X64","version":"1.0.0"}]}],"resultMetadata":[{"metadataItems":[{"count":97,"name":"TotalCount"}],"metadataType":"ResultCount"}]}]}"#
    );
    // An extension that came without versions goes even where nothing is withheld.
    let kept = apply_gate(page.duplicate(), &vec![vec![], vec![], vec![]]).unwrap();
    let kept = kept.get_list("results").unwrap()[0].get_list("extensions").unwrap().len();
    assert_eq!(kept, 2);
    // Nothing is served on an answer that did not come.
    assert_eq!(
        apply_gate(page, &vec![vec![], vec![]]).err(),
        Some(GalleryError::MetadataGateUnavailable)
    );
    for broken in [
        "{}",
        r#"{"results":[{}]}"#,
        r#"{"results":[{"extensions":[{}]}]}"#,
        r#"{"results":[{"extensions":[{"publisher":{"publisherName":"a"},"extensionName":"b"}]}]}"#,
        r#"{"results":[{"extensions":[{"publisher":{"publisherName":"a"},"extensionName":"b","versions":[{}]}]}]}"#,
    ] {
        assert_eq!(
            next_gate_batch(&json(broken), 0).err(),
            Some(GalleryError::InvalidResponse),
            "{broken}"
        );
        assert_eq!(
            apply_gate(json(broken), &vec![vec![]]).err(),
            Some(GalleryError::InvalidResponse),
            "{broken}"
        );
    }
}

#[test]
fn the_latest_version_is_served_walked_back_or_not_found() {
    let page = gallery_results_envelope(vec![detail()], None);
    match gallery_latest_version(page, Some(detail()), &server(), "ext") {
        Ok(LatestStep::Serve(extension)) => {
            assert_eq!(extension.get_str("extensionName"), Some("yaml"));
            assert!(!written(&extension).contains("up.example"));
        }
        _ => panic!("an extension that is left is served"),
    }
    let empty = || gallery_results_envelope(vec![], None);
    assert!(matches!(
        gallery_latest_version(empty(), Some(detail()), &server(), "ext"),
        Ok(LatestStep::WalkBack(_))
    ));
    assert_eq!(
        gallery_latest_version(empty(), None, &server(), "ext").err(),
        Some(GalleryError::ExtensionNotFound)
    );
    assert_eq!(
        gallery_latest_version(json("{}"), Some(detail()), &server(), "ext").err(),
        Some(GalleryError::InvalidResponse)
    );
}

#[test]
fn walking_back_serves_the_newest_allowed_build_of_each_platform() {
    let history = vec![
        build("1.0.0", "", Some("2023-01-01T00:00:00Z"), false),
        build("2.0.0", "", Some("2024-01-01T00:00:00Z"), false),
        build("2.0.0", "linux-x64", Some("2024-01-01T00:00:00Z"), false),
        build("0.9.0", "", Some("2022-01-01T00:00:00Z"), false),
    ];
    let (kept, candidates) = walk_back_candidates(history);
    let asked: Vec<&str> =
        candidates.iter().map(|candidate| candidate.coordinate.as_str()).collect();
    assert_eq!(
        asked,
        ["2.0.0@universal", "2.0.0@linux-x64", "1.0.0@universal", "0.9.0@universal"]
    );
    let blocked = vec!["2.0.0@universal".to_string()];
    let served = gallery_latest_walk_back(detail(), &kept, &blocked, &server(), "ext")
        .unwrap()
        .expect("an older version is allowed");
    let versions = served.get_list("versions").unwrap();
    assert_eq!(names(versions), ["2.0.0", "1.0.0"]);
    assert_eq!(versions[0].get_str("targetPlatform"), Some("linux-x64"));
    assert_eq!(
        versions[1].get_str("assetUri"),
        Some("https://ak.example/vscode/ext/asset/RedHat/yaml/1.0.0/universal")
    );
    assert_eq!(served.get_str("displayName"), Some("YAML"));

    let all: Vec<String> = asked.iter().map(|coordinate| coordinate.to_string()).collect();
    assert!(gallery_latest_walk_back(detail(), &kept, &all, &server(), "ext").unwrap().is_none());
    assert_eq!(
        gallery_latest_walk_back(json("{}"), &kept, &blocked, &server(), "ext").err(),
        Some(GalleryError::InvalidResponse)
    );
}

#[test]
fn a_coordinate_that_is_listed_twice_is_kept_once() {
    let kept = select_bounded_gallery_versions(vec![
        build("1.0.0", "", Some("2023-01-01T00:00:00Z"), false),
        build("1.0.0", "Universal", Some("2024-01-01T00:00:00Z"), true),
        build("1.0.0", "linux-x64", None, false),
    ]);
    assert_eq!(kept.len(), 2);
    assert!(kept[0].prerelease);
    assert_eq!(kept[1].target_platform, "linux-x64");
}

#[test]
fn publish_evidence_is_of_the_build_that_is_asked_for() {
    let history = history();
    assert_eq!(
        publish_evidence(&history, "1.5.0", " Universal "),
        Ok(gallery_parse_last_updated("2023-01-01T00:00:00Z"))
    );
    assert_eq!(
        publish_evidence(&history, "1.5.0", "linux-x64"),
        Err(GalleryError::VersionNotFound)
    );
    assert_eq!(publish_evidence(&vec![build("1", "", None, false)], "1", ""), Ok(None));
}

#[test]
fn an_age_gate_that_is_asked_for_is_never_passed_over() {
    assert_eq!(gallery_age_gate_seam(false, false, GateSurface::Metadata), Ok(false));
    assert_eq!(gallery_age_gate_seam(false, true, GateSurface::Asset), Ok(false));
    assert_eq!(gallery_age_gate_seam(true, true, GateSurface::Asset), Ok(true));
    assert_eq!(
        gallery_age_gate_seam(true, false, GateSurface::Metadata),
        Err(GalleryError::MetadataGateUnavailable)
    );
    assert_eq!(
        gallery_age_gate_seam(true, false, GateSurface::Asset),
        Err(GalleryError::AssetGateUnavailable)
    );
}

#[test]
fn bytes_are_fetched_last() {
    let mut stages = Vec::new();
    let mut passed = None;
    while let Some(stage) = next_asset_stage(passed) {
        stages.push(stage);
        passed = Some(stage);
    }
    assert_eq!(
        stages,
        [
            AssetStage::Curation,
            AssetStage::AgeGate,
            AssetStage::Proxy,
            AssetStage::OutboundUrl,
            AssetStage::Fetch,
        ]
    );
}

#[test]
fn reserved_bytes_come_back_to_the_budget() {
    let limits = metadata_limits();
    let mut budget = ProxyMetadataBudget::new(limits.reservation_bytes);
    let permit = budget.try_reserve(limits.reservation_bytes).unwrap();
    assert!(budget.try_reserve(1).is_none());
    budget.release(permit);
    assert!(budget.try_reserve(1).is_some());
    assert_eq!(limits.max_bytes * 32, limits.reservation_bytes);
    assert_eq!(skeleton_limits().max_bytes * 4, skeleton_limits().reservation_bytes);
}
