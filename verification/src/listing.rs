//! Laws on the package catalog: what an artifact is listed as, by what its row and its manifest
//! say, and which artifacts are no packages.

use vstd::prelude::*;

use crate::catalog::{CatalogRegistration, Facts, StoredArtifact};
use crate::json::JsonValue;

verus! {

/// What a manifest says at a key: its text without white space around it, unless it is blank.
pub open spec fn says(metadata: JsonValue, key: Seq<char>) -> Option<Seq<char>> {
    match metadata.get(key) {
        Some(JsonValue::Text(text)) => if crate::words::blank(text) {
            None
        } else {
            Some(crate::text::trimmed(text))
        },
        _ => None,
    }
}

/// What is left of a text is nothing exactly where all of it is white space.
proof fn lemma_blank(text: Seq<char>)
    ensures
        crate::words::blank(text) <==> crate::text::trimmed(text).len() == 0,
{
    crate::words::trimming_takes_white_space_only(text);
    let inner = crate::text::trimmed(text);
    let (before, after) = choose|before: Seq<char>, after: Seq<char>|
        crate::words::blank(before) && crate::words::blank(after) && text == #[trigger] (before
            + inner + after);
    if inner.len() == 0 {
        assert forall|i: int| 0 <= i < text.len() implies crate::words::is_blank(
            #[trigger] text[i],
        ) by {
            if i < before.len() {
                assert(before[i] == text[i]);
            } else {
                assert(after[i - before.len()] == text[i]);
            }
        }
    } else {
        assert(text[before.len() as int] == inner[0]);
        assert(!crate::words::is_blank(text[before.len() as int]));
    }
}

proof fn lemma_says(metadata: JsonValue, key: Seq<char>)
    ensures
        says(metadata, key) == crate::catalog::manifest_text(metadata, key),
{
    if let Some(JsonValue::Text(text)) = metadata.get(key) {
        lemma_blank(text);
    }
}

/// The version of an artifact's row is listed, whatever its manifest says; the manifest's is listed
/// only where the row has none or a blank one.
pub proof fn row_versions_come_before_manifest_versions(facts: Facts)
    requires
        crate::catalog::projected(facts) is Some,
    ensures
        ({
            let listing = crate::catalog::projected(facts)->Some_0;
            if facts.version is Some && !crate::words::blank(facts.version->Some_0) {
                listing.version == crate::text::trimmed(facts.version->Some_0)
            } else {
                Some(listing.version) == says(facts.metadata, "version"@)
            }
        }),
{
    lemma_says(facts.metadata, "version"@);
    if let Some(version) = facts.version {
        lemma_blank(version);
    }
}

/// The description that is listed is the manifest's, or else its summary, or else there is none.
pub proof fn descriptions_come_before_summaries(facts: Facts)
    requires
        crate::catalog::projected(facts) is Some,
    ensures
        crate::catalog::projected(facts)->Some_0.description == (if says(
            facts.metadata,
            "description"@,
        ) is Some {
            says(facts.metadata, "description"@)
        } else {
            says(facts.metadata, "summary"@)
        }),
{
    lemma_says(facts.metadata, "description"@);
    lemma_says(facts.metadata, "summary"@);
}

/// What a manifest names a package without group, user or channel: its own name, or else the row's.
pub open spec fn plain_name(facts: Facts) -> Seq<char> {
    match says(facts.metadata, "name"@) {
        Some(name) => name,
        None => facts.name,
    }
}

/// The name that is listed. Of a `conan` artifact it is the name, with user and channel where the
/// manifest says both and neither is `_`; of any other it is group and artifact where the manifest
/// says both, and else the name. White space around it does not count.
pub proof fn names_follow_the_manifest(facts: Facts)
    requires
        crate::catalog::projected(facts) is Some,
    ensures
        ({
            let name = crate::catalog::projected(facts)->Some_0.name;
            let user = says(facts.metadata, "user"@);
            let channel = says(facts.metadata, "channel"@);
            let group = says(facts.metadata, "groupId"@);
            let artifact = says(facts.metadata, "artifactId"@);
            &&& facts.format == "conan"@ && user is Some && channel is Some && user->Some_0 != "_"@
                && channel->Some_0 != "_"@ ==> name == crate::text::trimmed(
                plain_name(facts) + "@"@ + user->Some_0 + "/"@ + channel->Some_0,
            )
            &&& facts.format == "conan"@ && (user is None || channel is None || user->Some_0 == "_"@
                || channel->Some_0 == "_"@) ==> name == crate::text::trimmed(plain_name(facts))
            &&& facts.format != "conan"@ && group is Some && artifact is Some ==> name
                == crate::text::trimmed(group->Some_0 + ":"@ + artifact->Some_0)
            &&& facts.format != "conan"@ && (group is None || artifact is None) ==> name
                == crate::text::trimmed(plain_name(facts))
        }),
{
    lemma_says(facts.metadata, "name"@);
    lemma_says(facts.metadata, "user"@);
    lemma_says(facts.metadata, "channel"@);
    lemma_says(facts.metadata, "groupId"@);
    lemma_says(facts.metadata, "artifactId"@);
}

/// Whether the name that an artifact would be listed under is blank.
pub open spec fn nameless(facts: Facts) -> bool {
    let grouped = facts.format != "conan"@ && says(facts.metadata, "groupId"@) is Some && says(
        facts.metadata,
        "artifactId"@,
    ) is Some;
    let referenced = facts.format == "conan"@ && says(facts.metadata, "user"@) is Some && says(
        facts.metadata,
        "channel"@,
    ) is Some && says(facts.metadata, "user"@) != Some("_"@) && says(facts.metadata, "channel"@)
        != Some("_"@);
    !grouped && !referenced && crate::words::blank(plain_name(facts))
}

/// What is not blank stays so with text around it.
proof fn lemma_not_blank(text: Seq<char>, i: int)
    requires
        0 <= i < text.len(),
        !crate::words::is_blank(text[i]),
    ensures
        crate::text::trimmed(text).len() > 0,
{
    lemma_blank(text);
}

/// An artifact is listed exactly where its format is neither `docker` nor `oci`, its file is no
/// checksum, signature or index, and it has a name and a version that are not blank.
pub proof fn named_and_versioned_artifacts_are_listed(facts: Facts)
    ensures
        crate::catalog::projected(facts) is Some <==> {
            &&& facts.format != "docker"@
            &&& facts.format != "oci"@
            &&& !crate::catalog::sidecar(facts.path)
            &&& !nameless(facts)
            &&& (facts.version is Some && !crate::words::blank(facts.version->Some_0)) || says(
                facts.metadata,
                "version"@,
            ) is Some
        },
{
    lemma_says(facts.metadata, "name"@);
    lemma_says(facts.metadata, "user"@);
    lemma_says(facts.metadata, "channel"@);
    lemma_says(facts.metadata, "groupId"@);
    lemma_says(facts.metadata, "artifactId"@);
    lemma_says(facts.metadata, "version"@);
    if let Some(version) = facts.version {
        lemma_blank(version);
    }
    lemma_blank(plain_name(facts));
    reveal_strlit(":");
    reveal_strlit("@");
    reveal_strlit("/");
    let user = says(facts.metadata, "user"@);
    let channel = says(facts.metadata, "channel"@);
    let group = says(facts.metadata, "groupId"@);
    let artifact = says(facts.metadata, "artifactId"@);
    if group is Some && artifact is Some {
        let whole = group->Some_0 + ":"@ + artifact->Some_0;
        assert(whole[group->Some_0.len() as int] == ':');
        lemma_not_blank(whole, group->Some_0.len() as int);
    }
    if user is Some && channel is Some {
        let whole = plain_name(facts) + "@"@ + user->Some_0 + "/"@ + channel->Some_0;
        assert(whole[plain_name(facts).len() as int] == '@');
        lemma_not_blank(whole, plain_name(facts).len() as int);
    }
}

/// The last segment of a path whose end holds no separator is that end and what precedes it there.
proof fn lemma_tail_suffix(path: Seq<char>, suffix: Seq<char>)
    requires
        forall|i: int| 0 <= i < suffix.len() ==> #[trigger] suffix[i] != '/',
    ensures
        crate::text::after_last(path + suffix, '/') == crate::text::after_last(path, '/') + suffix,
    decreases suffix.len(),
{
    if suffix.len() == 0 {
        assert(path + suffix =~= path);
        assert(crate::text::after_last(path, '/') + suffix =~= crate::text::after_last(path, '/'));
    } else {
        lemma_tail_suffix(path, suffix.drop_last());
        assert((path + suffix).drop_last() =~= path + suffix.drop_last());
        assert(suffix[suffix.len() - 1] != '/');
        assert(crate::text::after_last(path + suffix, '/') =~= crate::text::after_last(path, '/')
            + suffix);
    }
}

/// Whether a text is written in small letters, digits and signs.
spec fn small(text: Seq<char>) -> bool {
    forall|i: int|
        0 <= i < text.len() ==> !('A' <= #[trigger] text[i] <= 'Z') && text[i] != '/'
}

proof fn lemma_sidecar_suffix(path: Seq<char>, suffix: Seq<char>)
    requires
        small(suffix),
    ensures
        crate::text::has_suffix(
            crate::text::lowered(crate::text::after_last(path + suffix, '/')),
            suffix,
        ),
{
    assert forall|i: int| 0 <= i < suffix.len() implies #[trigger] suffix[i] != '/' by {}
    lemma_tail_suffix(path, suffix);
    let tail = crate::text::after_last(path, '/');
    let file = crate::text::lowered(tail + suffix);
    assert(file.skip(file.len() - suffix.len()) =~= suffix);
}

/// Nothing is a package whose name ends like a checksum, a signature or a description beside a
/// package.
pub proof fn checksums_and_signatures_are_no_packages(path: Seq<char>)
    ensures
        crate::catalog::sidecar(path + ".sha1"@),
        crate::catalog::sidecar(path + ".sha256"@),
        crate::catalog::sidecar(path + ".sha512"@),
        crate::catalog::sidecar(path + ".md5"@),
        crate::catalog::sidecar(path + ".asc"@),
        crate::catalog::sidecar(path + ".sig"@),
        crate::catalog::sidecar(path + ".sbom"@),
        crate::catalog::sidecar(path + ".metalink"@),
        crate::catalog::sidecar(path + ".prov"@),
{
    reveal_strlit(".sha1");
    reveal_strlit(".sha256");
    reveal_strlit(".sha512");
    reveal_strlit(".md5");
    reveal_strlit(".asc");
    reveal_strlit(".sig");
    reveal_strlit(".sbom");
    reveal_strlit(".metalink");
    reveal_strlit(".prov");
    lemma_sidecar_suffix(path, ".sha1"@);
    lemma_sidecar_suffix(path, ".sha256"@);
    lemma_sidecar_suffix(path, ".sha512"@);
    lemma_sidecar_suffix(path, ".md5"@);
    lemma_sidecar_suffix(path, ".asc"@);
    lemma_sidecar_suffix(path, ".sig"@);
    lemma_sidecar_suffix(path, ".sbom"@);
    lemma_sidecar_suffix(path, ".metalink"@);
    lemma_sidecar_suffix(path, ".prov"@);
}

proof fn lemma_index(directory: Seq<char>, file: Seq<char>)
    requires
        small(file),
    ensures
        crate::text::lowered(crate::text::after_last(directory + "/"@ + file, '/')) == file,
{
    reveal_strlit("/");
    assert("/"@ =~= seq!['/']);
    let path = directory + "/"@;
    assert(path.last() == '/');
    assert forall|i: int| 0 <= i < file.len() implies #[trigger] file[i] != '/' by {}
    lemma_tail_suffix(path, file);
    assert(crate::text::after_last(path, '/') + file =~= file);
    assert(crate::text::lowered(file) =~= file);
}

/// Nothing is a package that is an index of a repository, in whatever directory.
pub proof fn indexes_are_no_packages(directory: Seq<char>)
    ensures
        crate::catalog::sidecar(directory + "/"@ + "maven-metadata.xml"@),
        crate::catalog::sidecar(directory + "/"@ + "index.yaml"@),
        crate::catalog::sidecar(directory + "/"@ + "apkindex.tar.gz"@),
        crate::catalog::sidecar(directory + "/"@ + "packages"@),
        crate::catalog::sidecar(directory + "/"@ + "packages.gz"@),
        crate::catalog::sidecar(directory + "/"@ + "release"@),
        crate::catalog::sidecar(directory + "/"@ + "inrelease"@),
        crate::catalog::sidecar(directory + "/"@ + "release.gpg"@),
        crate::catalog::sidecar(directory + "/"@ + "repomd.xml"@),
        crate::catalog::sidecar(directory + "/"@ + "index.json"@),
        crate::catalog::sidecar(directory + "/"@ + "packages.json"@),
{
    reveal_strlit("maven-metadata.xml");
    reveal_strlit("index.yaml");
    reveal_strlit("apkindex.tar.gz");
    reveal_strlit("packages");
    reveal_strlit("packages.gz");
    reveal_strlit("release");
    reveal_strlit("inrelease");
    reveal_strlit("release.gpg");
    reveal_strlit("repomd.xml");
    reveal_strlit("index.json");
    reveal_strlit("packages.json");
    lemma_index(directory, "maven-metadata.xml"@);
    lemma_index(directory, "index.yaml"@);
    lemma_index(directory, "apkindex.tar.gz"@);
    lemma_index(directory, "packages"@);
    lemma_index(directory, "packages.gz"@);
    lemma_index(directory, "release"@);
    lemma_index(directory, "inrelease"@);
    lemma_index(directory, "release.gpg"@);
    lemma_index(directory, "repomd.xml"@);
    lemma_index(directory, "index.json"@);
    lemma_index(directory, "packages.json"@);
}

proof fn lemma_lowered_tail(path: Seq<char>)
    ensures
        crate::text::after_last(crate::text::lowered(path), '/') == crate::text::lowered(
            crate::text::after_last(path, '/'),
        ),
    decreases path.len(),
{
    if path.len() > 0 {
        lemma_lowered_tail(path.drop_last());
        assert(crate::text::lowered(path).drop_last() =~= crate::text::lowered(path.drop_last()));
        assert((crate::text::lowered(path).last() == '/') == (path.last() == '/'));
    }
    assert(crate::text::after_last(crate::text::lowered(path), '/') =~= crate::text::lowered(
        crate::text::after_last(path, '/'),
    ));
}

/// The case of its letters does not make a file a package, and all that lies in a `repodata`
/// directory is none.
pub proof fn letter_case_makes_no_package(path: Seq<char>, before: Seq<char>, after: Seq<char>)
    ensures
        crate::catalog::sidecar(crate::text::lowered(path)) == crate::catalog::sidecar(path),
        crate::catalog::sidecar(before + "/repodata/"@ + after),
{
    lemma_lowered_tail(path);
    crate::text::lowering_is_idempotent(path);
    crate::text::lowering_is_idempotent(crate::text::after_last(path, '/'));
    reveal_strlit("/repodata/");
    let whole = before + "/repodata/"@ + after;
    assert(crate::text::lowered(whole) =~= crate::text::lowered(before) + "/repodata/"@
        + crate::text::lowered(after));
    crate::words::infixes_stand_in_a_text(crate::text::lowered(whole), "/repodata/"@);
}

/// What is no package is so for its name, which ends or is as one of these, or for the directory it
/// lies in; every other file may be a package.
pub proof fn other_files_may_be_packages(path: Seq<char>)
    ensures
        ({
            let file = crate::text::lowered(crate::text::after_last(path, '/'));
            crate::catalog::sidecar(path) ==> {
                ||| crate::text::has_suffix(file, ".sha1"@)
                ||| crate::text::has_suffix(file, ".sha256"@)
                ||| crate::text::has_suffix(file, ".sha512"@)
                ||| crate::text::has_suffix(file, ".md5"@)
                ||| crate::text::has_suffix(file, ".asc"@)
                ||| crate::text::has_suffix(file, ".sig"@)
                ||| crate::text::has_suffix(file, ".sbom"@)
                ||| crate::text::has_suffix(file, ".metalink"@)
                ||| crate::text::has_suffix(file, ".prov"@)
                ||| file == "maven-metadata.xml"@
                ||| file == "index.yaml"@
                ||| file == "apkindex.tar.gz"@
                ||| file == "packages"@
                ||| file == "packages.gz"@
                ||| file == "release"@
                ||| file == "inrelease"@
                ||| file == "release.gpg"@
                ||| file == "repomd.xml"@
                ||| file == "index.json"@
                ||| file == "packages.json"@
                ||| crate::text::has_infix(crate::text::lowered(path), "/repodata/"@)
            }
        }),
{
}

/// The artifacts that are packages.
pub open spec fn is_package() -> spec_fn(StoredArtifact) -> bool {
    |row: StoredArtifact|
        crate::catalog::projected(
            Facts {
                format: row.format@,
                metadata: row.metadata@,
                name: row.name@,
                version: match row.version {
                    Some(version) => Some(version@),
                    None => None,
                },
                path: row.path@,
            },
        ) is Some
}

/// Of a page of artifacts, exactly those that are packages are registered, in their order, each by
/// what its own row says.
pub proof fn pages_register_every_package(rows: Seq<StoredArtifact>)
    ensures
        crate::catalog::packages(rows) == rows.filter(is_package()),
    decreases rows.len(),
{
    reveal(Seq::filter);
    if rows.len() > 0 {
        pages_register_every_package(rows.drop_last());
        let row = rows.last();
        assert(row.known() == Facts {
            format: row.format@,
            metadata: row.metadata@,
            name: row.name@,
            version: match row.version {
                Some(version) => Some(version@),
                None => None,
            },
            path: row.path@,
        });
    }
}

/// What is put into the catalog for an artifact is what its row says: the repository, the size, the
/// checksum and the format, and the listing that is made of it.
pub proof fn registrations_carry_the_row(registration: CatalogRegistration, stored: StoredArtifact)
    requires
        crate::catalog::registers(registration, stored),
    ensures
        registration.repository_id == stored.repository_id,
        registration.size_bytes == stored.size_bytes,
        registration.checksum_sha256@ == stored.checksum_sha256@,
        registration.metadata@.get("format"@) == Some(JsonValue::Text(stored.format@)),
        forall|key: Seq<char>|
            key != "format"@ ==> #[trigger] registration.metadata@.get(key) is None,
        crate::catalog::projected(
            Facts {
                format: stored.format@,
                metadata: stored.metadata@,
                name: stored.name@,
                version: match stored.version {
                    Some(version) => Some(version@),
                    None => None,
                },
                path: stored.path@,
            },
        ) == Some(registration.entry@),
{
}

} // verus!
