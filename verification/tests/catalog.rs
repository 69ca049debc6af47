use artifact_keeper::catalog::{
    backfill, is_exempt_format, is_sidecar_path, project, register_artifact, ArtifactFacts,
    BackfillReport, StoredArtifact,
};
use artifact_keeper::json::Json;

fn json(text: &str) -> Json {
    Json::parse(text.as_bytes()).expect("the manifest is JSON")
}

fn facts<'a>(
    format: &'a str,
    metadata: &'a Json,
    name: &'a str,
    version: Option<&'a str>,
    path: &'a str,
) -> ArtifactFacts<'a> {
    ArtifactFacts { format, metadata, name, version, path }
}

#[test]
fn projects_a_plain_format_from_the_artifact_row() {
    let metadata = json(r#"{ "arch": "x86_64" }"#);
    let entry = project(&facts(
        "rpm",
        &metadata,
        "nginx",
        Some("1.24.0-1.el9"),
        "packages/nginx-1.24.0-1.el9.x86_64.rpm",
    ))
    .expect("rpm upload is a package");

    assert_eq!(entry.name, "nginx");
    assert_eq!(entry.version, "1.24.0-1.el9");
    assert_eq!(entry.description, None);
}

#[test]
fn prefers_the_manifest_name_over_the_artifact_row() {
    let metadata = json(r#"{ "name": "@scope/pkg", "description": "a package" }"#);
    let entry = project(&facts(
        "npm",
        &metadata,
        "pkg",
        Some("2.0.0"),
        "@scope/pkg/-/pkg-2.0.0.tgz",
    ))
    .expect("npm publish is a package");

    assert_eq!(entry.name, "@scope/pkg");
    assert_eq!(entry.description.as_deref(), Some("a package"));
}

#[test]
fn normalizes_maven_shaped_coordinates_to_group_and_artifact() {
    let metadata = json(r#"{ "groupId": "com.acme", "artifactId": "widget" }"#);
    let entry = project(&facts(
        "maven",
        &metadata,
        "widget",
        Some("1.0.0"),
        "com/acme/widget/1.0.0/widget-1.0.0.jar",
    ))
    .expect("a jar is a package");

    assert_eq!(entry.name, "com.acme:widget");
}

#[test]
fn collapses_conan_default_user_and_channel() {
    let defaults = json(r#"{ "name": "zlib", "user": "_", "channel": "_" }"#);
    assert_eq!(
        project(&facts("conan", &defaults, "zlib", Some("1.3"), "zlib/1.3/x"))
            .unwrap()
            .name,
        "zlib"
    );

    let scoped = json(r#"{ "name": "zlib", "user": "acme", "channel": "stable" }"#);
    assert_eq!(
        project(&facts("conan", &scoped, "zlib", Some("1.3"), "zlib/1.3/x"))
            .unwrap()
            .name,
        "zlib@acme/stable"
    );
}

#[test]
fn falls_back_to_the_rpm_summary_for_a_description() {
    let metadata = json(r#"{ "summary": "HTTP server" }"#);
    let entry = project(&facts(
        "rpm",
        &metadata,
        "nginx",
        Some("1.24.0"),
        "packages/nginx.rpm",
    ))
    .unwrap();

    assert_eq!(entry.description.as_deref(), Some("HTTP server"));
}

#[test]
fn skips_oci_rows_whose_identity_only_the_manifest_handler_knows() {
    let metadata = json(r#"{ "mediaType": "application/vnd.oci.image.manifest.v1+json" }"#);
    assert!(project(&facts(
        "docker",
        &metadata,
        "library/alpine",
        Some("sha256:abc"),
        "manifests/sha256:abc",
    ))
    .is_none());
}

#[test]
fn skips_checksums_signatures_and_repository_indexes() {
    let metadata = json("{}");
    for path in [
        "com/acme/widget/1.0.0/widget-1.0.0.jar.sha1",
        "com/acme/widget/1.0.0/widget-1.0.0.jar.asc",
        "com/acme/widget/maven-metadata.xml",
        "index.yaml",
        "x86_64/APKINDEX.tar.gz",
        "repodata/repomd.xml",
        "dists/stable/main/binary-amd64/Packages.gz",
        "charts/mychart-1.0.0.tgz.prov",
    ] {
        assert!(
            project(&facts("maven", &metadata, "widget", Some("1.0.0"), path)).is_none(),
            "{path} must not be catalogued as a package"
        );
    }
}

#[test]
fn skips_an_artifact_with_no_version_anywhere() {
    let metadata = json(r#"{ "name": "thing" }"#);
    assert!(project(&facts("generic", &metadata, "thing", None, "thing.bin")).is_none());
    assert!(project(&facts("generic", &metadata, "thing", Some("  "), "thing.bin")).is_none());
}

#[test]
fn takes_the_version_from_the_manifest_when_the_row_has_none() {
    let metadata = json(r#"{ "name": "thing", "version": "3.1.4" }"#);
    let entry = project(&facts(
        "conda",
        &metadata,
        "thing",
        None,
        "noarch/thing.conda",
    ))
    .unwrap();

    assert_eq!(entry.version, "3.1.4");
}

#[test]
fn every_sidecar_is_known_by_name_or_place() {
    for path in [
        "a.sha256", "a.SHA512", "a.md5", "a.sig", "a.sbom", "a.metalink", "x/Packages",
        "x/Release", "x/InRelease", "x/Release.gpg", "index.json", "packages.json",
        "el9/repodata/primary.xml.gz", "EL9/RepoData/x",
    ] {
        assert!(is_sidecar_path(path), "{path}");
    }
    for path in ["packages.zip", "release.tar", "repodata/x", "sha1", "a.sha1/b", "", "/"] {
        assert!(!is_sidecar_path(path), "{path}");
    }
    assert!(is_exempt_format("docker"));
    assert!(is_exempt_format("oci"));
    assert!(!is_exempt_format("OCI"));
    assert!(!is_exempt_format("maven"));
}

#[test]
fn names_and_versions_are_listed_without_white_space_around_them() {
    let metadata = json(r#"{ "name": "  ", "version": "  2.0 ", "description": " \t" }"#);
    let entry = project(&facts("generic", &metadata, "  thing\n", None, "thing.bin")).unwrap();
    assert_eq!(entry.name, "thing");
    assert_eq!(entry.version, "2.0");
    assert_eq!(entry.description, None);
    assert!(project(&facts("generic", &json("{}"), " ", Some("1"), "thing.bin")).is_none());
    // One of user and channel alone makes no reference.
    let half = json(r#"{ "user": "acme", "channel": "_" }"#);
    assert_eq!(
        project(&facts("conan", &half, "zlib", Some("1.3"), "x")).unwrap().name,
        "zlib"
    );
}

fn stored(id: u128, format: &str, version: Option<&str>, path: &str) -> StoredArtifact {
    StoredArtifact {
        id,
        repository_id: 9,
        name: "thing".to_string(),
        version: version.map(str::to_string),
        path: path.to_string(),
        size_bytes: 12,
        checksum_sha256: "cafe".to_string(),
        format: format.to_string(),
        metadata: json(r#"{ "description": "a thing" }"#),
    }
}

#[test]
fn registering_takes_size_and_checksum_from_the_row() {
    let registration = register_artifact(&stored(1, "generic", Some("1.0"), "thing.bin")).unwrap();
    assert_eq!(registration.repository_id, 9);
    assert_eq!(registration.entry.name, "thing");
    assert_eq!(registration.entry.version, "1.0");
    assert_eq!(registration.entry.description.as_deref(), Some("a thing"));
    assert_eq!(registration.size_bytes, 12);
    assert_eq!(registration.checksum_sha256, "cafe");
    assert_eq!(
        registration.metadata.encode(),
        br#"{"format":"generic"}"#.to_vec()
    );
    assert!(register_artifact(&stored(1, "oci", Some("1.0"), "thing.bin")).is_none());
}

#[test]
fn a_backfill_counts_and_goes_on_where_it_stopped() {
    let rows = vec![
        stored(1, "generic", Some("1.0"), "thing.bin"),
        stored(2, "generic", None, "thing.bin"),
        stored(3, "generic", Some("2.0"), "thing.bin"),
    ];
    let (report, registrations) = backfill(&rows, 3);
    assert_eq!(
        report,
        BackfillReport {
            scanned: 3,
            registered: 2,
            skipped: 1,
            next_cursor: Some(3),
        }
    );
    assert_eq!(
        registrations
            .iter()
            .map(|registration| registration.entry.version.as_str())
            .collect::<Vec<_>>(),
        vec!["1.0", "2.0"]
    );
    let (short, _) = backfill(&rows, 10);
    assert_eq!(short.next_cursor, None);
    let (empty, none) = backfill(&vec![], 0);
    assert_eq!(empty.next_cursor, None);
    assert_eq!(empty.scanned, 0);
    assert!(none.is_empty());
}

#[test]
fn a_scan_reaches_every_artifact() {
    let all: Vec<u128> = vec![2, 3, 5, 7, 11];
    for limit in 1..7 {
        let mut reached: Vec<u128> = Vec::new();
        let mut cursor: Option<u128> = None;
        loop {
            let page: Vec<StoredArtifact> = all
                .iter()
                .filter(|id| cursor.map_or(true, |cursor| **id > cursor))
                .take(limit)
                .map(|id| stored(*id, "generic", Some("1.0"), "thing.bin"))
                .collect();
            reached.extend(page.iter().map(|row| row.id));
            let (report, _) = backfill(&page, limit as i64);
            cursor = report.next_cursor;
            if cursor.is_none() {
                break;
            }
        }
        assert_eq!(reached, all);
    }
    assert_eq!(BackfillReport::default().next_cursor, None);
}
