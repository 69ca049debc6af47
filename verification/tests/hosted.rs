use artifact_keeper::error::GalleryError;
use artifact_keeper::hosted::{
    build_vscode_metadata, build_vscode_publish_response, content_disposition, download_vsix,
    latest_version, legacy_route, publish_extension, query_extensions, refuse_existing,
    reject_ungateable_legacy_pull_through, HostedArtifact, LegacyRoute,
};
use artifact_keeper::json::Json;
use artifact_keeper::repository::RepoInfo;
use artifact_keeper::urls::{
    build_extension_id, build_vscode_artifact_path, build_vscode_download_url,
    build_vscode_storage_key, build_vsix_download_filename, build_vsix_filename, checksum_sha256,
};
use sha2::{Digest, Sha256};

fn members(json: &Json) -> usize {
    match json {
        Json::Object(members) => members.len(),
        _ => panic!("an object"),
    }
}

fn text(json: &Json) -> String {
    String::from_utf8(json.duplicate().encode()).expect("JSON is text")
}

fn repo(repo_type: &str, upstream_url: Option<&str>, age_gate_enabled: bool) -> RepoInfo {
    RepoInfo {
        id: 7,
        key: "extensions".to_string(),
        storage_path: "/data/vscode".to_string(),
        storage_backend: "filesystem".to_string(),
        repo_type: repo_type.to_string(),
        upstream_url: upstream_url.map(str::to_string),
        format: "vscode".to_string(),
        promotion_only: false,
        age_gate_enabled,
        age_gate_min_age_days: 7,
        age_gate_mode: "upstream_publish_time".to_string(),
        curation_enabled: false,
        curation_default_action: "allow".to_string(),
    }
}

#[test]
fn test_build_extension_id() {
    assert_eq!(build_extension_id("ms-python", "python"), "ms-python.python");
}

#[test]
fn test_build_extension_id_complex() {
    assert_eq!(
        build_extension_id("esbenp", "prettier-vscode"),
        "esbenp.prettier-vscode"
    );
}

#[test]
fn test_build_extension_id_single_char() {
    assert_eq!(build_extension_id("a", "b"), "a.b");
}

#[test]
fn test_build_vsix_filename() {
    assert_eq!(
        build_vsix_filename("ms-python", "python", "2024.1.0"),
        "ms-python.python-2024.1.0.vsix"
    );
}

#[test]
fn test_build_vsix_filename_prerelease() {
    assert_eq!(
        build_vsix_filename("ms-vscode", "cpptools", "1.18.0-insiders"),
        "ms-vscode.cpptools-1.18.0-insiders.vsix"
    );
}

#[test]
fn test_build_vsix_filename_ends_with_vsix() {
    let f = build_vsix_filename("a", "b", "1.0.0");
    assert!(f.ends_with(".vsix"));
}

#[test]
fn test_build_vscode_artifact_path() {
    assert_eq!(
        build_vscode_artifact_path("ms-python", "python", "2024.1.0"),
        "ms-python/python/ms-python.python-2024.1.0.vsix"
    );
}

#[test]
fn test_build_vscode_artifact_path_contains_publisher() {
    let path = build_vscode_artifact_path("esbenp", "prettier-vscode", "10.1.0");
    assert!(path.starts_with("esbenp/"));
}

#[test]
fn test_build_vscode_artifact_path_contains_name() {
    let path = build_vscode_artifact_path("redhat", "vscode-yaml", "1.14.0");
    assert!(path.contains("/vscode-yaml/"));
}

#[test]
fn test_build_vscode_storage_key() {
    assert_eq!(
        build_vscode_storage_key("esbenp", "prettier-vscode", "10.1.0"),
        "vscode/esbenp/prettier-vscode/esbenp.prettier-vscode-10.1.0.vsix"
    );
}

#[test]
fn test_build_vscode_storage_key_starts_with_vscode() {
    let key = build_vscode_storage_key("ms-python", "python", "1.0.0");
    assert!(key.starts_with("vscode/"));
}

#[test]
fn test_build_vscode_storage_key_ends_with_vsix() {
    let key = build_vscode_storage_key("ms-vscode", "cpptools", "1.18.0");
    assert!(key.ends_with(".vsix"));
}

#[test]
fn test_build_vscode_download_url() {
    assert_eq!(
        build_vscode_download_url("vscode-local", "ms-vscode", "cpptools", "1.18.0"),
        "/vscode/vscode-local/extensions/ms-vscode/cpptools/1.18.0/download"
    );
}

#[test]
fn test_build_vscode_download_url_starts_with_vscode() {
    let url = build_vscode_download_url("repo", "pub", "ext", "1.0.0");
    assert!(url.starts_with("/vscode/"));
}

#[test]
fn test_build_vscode_download_url_ends_with_download() {
    let url = build_vscode_download_url("repo", "pub", "ext", "1.0.0");
    assert!(url.ends_with("/download"));
}

#[test]
fn test_build_vsix_download_filename() {
    assert_eq!(
        build_vsix_download_filename("redhat", "vscode-yaml", "1.14.0"),
        "redhat.vscode-yaml-1.14.0.vsix"
    );
}

#[test]
fn test_build_vsix_download_filename_contains_publisher() {
    let f = build_vsix_download_filename("ms-python", "python", "2024.1.0");
    assert!(f.starts_with("ms-python."));
}

#[test]
fn test_build_vsix_download_filename_ends_with_vsix() {
    let f = build_vsix_download_filename("a", "b", "1.0.0");
    assert!(f.ends_with(".vsix"));
}

#[test]
fn test_build_vscode_metadata() {
    let meta = build_vscode_metadata("ms-python", "python", "2024.1.0");
    assert_eq!(meta.get_str("publisher"), Some("ms-python"));
    assert_eq!(meta.get_str("extension_name"), Some("python"));
    assert_eq!(meta.get_str("version"), Some("2024.1.0"));
    assert_eq!(
        meta.get_str("filename"),
        Some("ms-python.python-2024.1.0.vsix")
    );
}

#[test]
fn test_build_vscode_metadata_has_four_keys() {
    let meta = build_vscode_metadata("a", "b", "1.0.0");
    assert_eq!(members(&meta), 4);
}

#[test]
fn test_build_vscode_metadata_has_all_keys() {
    let meta = build_vscode_metadata("pub", "ext", "1.0.0");
    assert!(meta.get("publisher").is_some());
    assert!(meta.get("extension_name").is_some());
    assert!(meta.get("version").is_some());
    assert!(meta.get("filename").is_some());
}

#[test]
fn test_build_vscode_publish_response() {
    let resp = build_vscode_publish_response("ms-python", "python", "2024.1.0");
    assert_eq!(resp.get_str("publisher"), Some("ms-python"));
    assert_eq!(resp.get_str("name"), Some("python"));
    assert_eq!(resp.get_str("version"), Some("2024.1.0"));
    assert_eq!(
        resp.get_str("message"),
        Some("Successfully published extension")
    );
}

#[test]
fn test_build_vscode_publish_response_has_message() {
    let resp = build_vscode_publish_response("a", "b", "1.0.0");
    assert!(resp.get_str("message").unwrap().contains("published"));
}

#[test]
fn test_build_vscode_publish_response_four_keys() {
    let resp = build_vscode_publish_response("a", "b", "1.0.0");
    assert_eq!(members(&resp), 4);
}

#[test]
fn test_sha256_computation() {
    let data = b"fake VSIX content";
    let hash = checksum_sha256(data);
    assert_eq!(hash.len(), 64);

    // Same data produces same hash
    let mut hasher = Sha256::new();
    hasher.update(data);
    let hash2 = format!("{:x}", hasher.finalize());
    assert_eq!(hash, hash2);
    assert_eq!(hash, checksum_sha256(data));
}

#[test]
fn test_repo_info_hosted() {
    let repo = RepoInfo {
        id: uuid::Uuid::new_v4().as_u128(),
        key: String::new(),
        storage_path: "/data/vscode-local".to_string(),
        storage_backend: "filesystem".to_string(),
        repo_type: "hosted".to_string(),
        upstream_url: None,
        format: "generic".to_string(),
        promotion_only: false,
        age_gate_enabled: false,
        age_gate_min_age_days: 7,
        age_gate_mode: "upstream_publish_time".to_string(),
        curation_enabled: false,
        curation_default_action: "allow".to_string(),
    };
    assert_eq!(repo.storage_path, "/data/vscode-local");
    assert_eq!(repo.repo_type, "hosted");
    assert!(repo.upstream_url.is_none());
    assert!(!repo.is_remote());
}

#[test]
fn test_repo_info_remote() {
    let repo = RepoInfo {
        id: uuid::Uuid::new_v4().as_u128(),
        key: String::new(),
        storage_path: "/data/vscode-remote".to_string(),
        storage_backend: "filesystem".to_string(),
        repo_type: "remote".to_string(),
        upstream_url: Some(
            "https://marketplace.visualstudio.com/_apis/public/gallery".to_string(),
        ),
        format: "generic".to_string(),
        promotion_only: false,
        age_gate_enabled: false,
        age_gate_min_age_days: 7,
        age_gate_mode: "upstream_publish_time".to_string(),
        curation_enabled: false,
        curation_default_action: "allow".to_string(),
    };
    assert_eq!(repo.repo_type, "remote");
    assert!(repo.upstream_url.is_some());
    assert!(repo.is_remote());
}

#[test]
fn checksums_are_the_published_ones() {
    assert_eq!(
        checksum_sha256(b"abc"),
        "ba7816bf8f01cfea414140de5dae2223b00361a396177a9cb410ff61f20015ad"
    );
    assert_eq!(
        checksum_sha256(b""),
        "e3b0c44298fc1c149afbf4c8996fb92427ae41e4649b934ca495991b7852b855"
    );
}

#[test]
fn publishing_names_each_missing_part_in_turn() {
    let refused = |body: &[u8], p: Option<&str>, n: Option<&str>, v: Option<&str>| {
        publish_extension(body, p, n, v).err()
    };
    assert_eq!(
        refused(b"", None, None, None),
        Some(GalleryError::EmptyPackage)
    );
    assert_eq!(
        refused(b"x", None, None, None),
        Some(GalleryError::MissingPublisher)
    );
    assert_eq!(
        refused(b"x", Some("p"), None, None),
        Some(GalleryError::MissingExtensionName)
    );
    assert_eq!(
        refused(b"x", Some("p"), Some("n"), None),
        Some(GalleryError::MissingExtensionVersion)
    );
    let hosted = repo("hosted", None, false);
    for (error, status, message) in [
        (GalleryError::EmptyPackage, 400, "Empty VSIX file"),
        (GalleryError::MissingPublisher, 400, "Missing x-publisher header"),
        (
            GalleryError::MissingExtensionName,
            400,
            "Missing x-extension-name header",
        ),
        (
            GalleryError::MissingExtensionVersion,
            400,
            "Missing x-extension-version header",
        ),
        (
            GalleryError::VersionExists,
            409,
            "Extension version already exists",
        ),
    ] {
        assert_eq!(error.status(), status);
        assert_eq!(error.message(&hosted).as_deref(), Some(message));
    }
}

#[test]
fn publishing_stores_what_a_listing_then_shows() {
    let plan = publish_extension(b"abc", Some("redhat"), Some("vscode-yaml"), Some("1.14.0"))
        .expect("a whole request is published");
    assert_eq!(plan.extension_id, "redhat.vscode-yaml");
    assert_eq!(plan.version, "1.14.0");
    assert_eq!(plan.content_type, "application/vsix");
    assert_eq!(
        plan.checksum_sha256,
        "ba7816bf8f01cfea414140de5dae2223b00361a396177a9cb410ff61f20015ad"
    );
    assert_eq!(
        plan.artifact_path,
        "redhat/vscode-yaml/redhat.vscode-yaml-1.14.0.vsix"
    );
    assert_eq!(
        plan.storage_key,
        "vscode/redhat/vscode-yaml/redhat.vscode-yaml-1.14.0.vsix"
    );
    assert_eq!(
        text(&plan.answer),
        r#"{"message":"Successfully published extension","name":"vscode-yaml","publisher":"redhat","version":"1.14.0"}"#
    );
    let listing = query_extensions(
        "extensions",
        &vec![HostedArtifact {
            name: plan.extension_id,
            version: Some("1.14.0".to_string()),
            metadata: Some(plan.metadata),
        }],
    );
    assert_eq!(
        text(&listing),
        r#"{"results":[{"extensions":[{"extensionName":"vscode-yaml","publisher":{"publisherName":"redhat"},"versions":[{"assetUri":"/vscode/extensions/extensions/redhat/vscode-yaml/1.14.0/download","version":"1.14.0"}]}],"resultMetadata":[{"metadataItems":[{"count":1,"name":"TotalCount"}],"metadataType":"ResultCount"}]}]}"#
    );
    assert_eq!(refuse_existing(true), Err(GalleryError::VersionExists));
    assert_eq!(refuse_existing(false), Ok(()));
}

#[test]
fn a_listing_without_metadata_falls_back() {
    let listing = query_extensions(
        "r",
        &vec![HostedArtifact { name: "a.b".to_string(), version: None, metadata: None }],
    );
    assert_eq!(
        text(&listing),
        r#"{"results":[{"extensions":[{"extensionName":"a.b","publisher":{"publisherName":"unknown"},"versions":[{"assetUri":"/vscode/r/extensions/unknown/a.b//download","version":""}]}],"resultMetadata":[{"metadataItems":[{"count":1,"name":"TotalCount"}],"metadataType":"ResultCount"}]}]}"#
    );
}

#[test]
fn the_latest_hosted_version_is_described() {
    let record = latest_version("r", "p", "n", &Some("1.0.0".to_string()), "cafe", 42);
    assert_eq!(
        text(&record),
        r#"{"downloadUrl":"/vscode/r/extensions/p/n/1.0.0/download","name":"n","publisher":"p","sha256":"cafe","size":42,"version":"1.0.0"}"#
    );
    let negative = latest_version("r", "p", "n", &None, "cafe", -1);
    assert_eq!(
        text(&negative),
        r#"{"downloadUrl":"/vscode/r/extensions/p/n//download","name":"n","publisher":"p","sha256":"cafe","size":-1,"version":""}"#
    );
}

#[test]
fn the_legacy_route_is_refused_while_the_gate_is_on() {
    let gated = repo("remote", Some("https://up.example/vscode/gallery"), true);
    let error = reject_ungateable_legacy_pull_through(&gated).unwrap_err();
    assert_eq!(error, GalleryError::LegacyGateUnavailable);
    assert_eq!(error.status(), 503);
    assert_eq!(error.message(&gated), None);
    assert_eq!(
        error.surface().as_deref(),
        Some("VS Code legacy extension download (use the /gallery/... routes)")
    );
    // The age gate is asked before the path is looked at.
    assert_eq!(
        download_vsix(&gated, "a?b", "c", "1").err(),
        Some(GalleryError::LegacyGateUnavailable)
    );
    let open = repo("remote", Some("https://up.example/vscode/gallery"), false);
    assert_eq!(reject_ungateable_legacy_pull_through(&open), Ok(()));
    assert_eq!(
        download_vsix(&open, "a?b", "c", "1").err(),
        Some(GalleryError::InvalidPath)
    );
    let plan = download_vsix(&open, "RedHat", "VSCode-YAML", "1.0.0").unwrap();
    assert_eq!(
        plan.upstream_path,
        "extensions/RedHat/VSCode-YAML/1.0.0/download"
    );
    assert_eq!(plan.package, "redhat.vscode-yaml");
    let hosted = repo("hosted", None, true);
    assert_eq!(reject_ungateable_legacy_pull_through(&hosted), Ok(()));
}

#[test]
fn packages_that_are_not_here_are_looked_for_where_they_may_be() {
    let remote = repo("remote", Some("https://up.example/x"), false);
    assert!(
        matches!(legacy_route(&remote, true), LegacyRoute::Upstream(url) if url == "https://up.example/x")
    );
    assert!(matches!(legacy_route(&remote, false), LegacyRoute::NotFound));
    assert!(matches!(
        legacy_route(&repo("remote", None, false), true),
        LegacyRoute::NotFound
    ));
    assert!(matches!(
        legacy_route(&repo("virtual", None, false), false),
        LegacyRoute::Members
    ));
    assert!(matches!(
        legacy_route(&repo("hosted", Some("x"), false), true),
        LegacyRoute::NotFound
    ));
    assert_eq!(
        content_disposition("redhat", "vscode-yaml", "1.14.0"),
        "attachment; filename=\"redhat.vscode-yaml-1.14.0.vsix\""
    );
}
