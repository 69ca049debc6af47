//! The package catalog: which stored artifacts are packages, under which name and version they
//! are listed, and how artifacts stored before are brought in.

use vstd::prelude::*;

use crate::json::{Json, JsonValue};
use crate::text::{
    contains_text, ends_with, is_empty, last_segment, same_text, to_ascii_lowercase, trim,
};

verus! {

/// What an artifact is listed as.
#[derive(Debug, Clone, PartialEq, Eq)]
pub struct CatalogEntry {
    pub name: String,
    pub version: String,
    pub description: Option<String>,
}

/// What is known of a stored artifact.
#[derive(Debug, Clone, Copy)]
pub struct ArtifactFacts<'a> {
    pub format: &'a str,
    pub metadata: &'a Json,
    pub name: &'a str,
    pub version: Option<&'a str>,
    pub path: &'a str,
}

/// What is known of a stored artifact, as mathematics.
#[verifier::ext_equal]
pub struct Facts {
    pub format: Seq<char>,
    pub metadata: JsonValue,
    pub name: Seq<char>,
    pub version: Option<Seq<char>>,
    pub path: Seq<char>,
}

impl<'a> View for ArtifactFacts<'a> {
    type V = Facts;

    open spec fn view(&self) -> Facts {
        Facts {
            format: self.format@,
            metadata: self.metadata@,
            name: self.name@,
            version: crate::coordinate::str_opt(self.version),
            path: self.path@,
        }
    }
}

/// What an artifact is listed as, as mathematics.
#[verifier::ext_equal]
pub struct Listing {
    pub name: Seq<char>,
    pub version: Seq<char>,
    pub description: Option<Seq<char>>,
}

impl View for CatalogEntry {
    type V = Listing;

    open spec fn view(&self) -> Listing {
        Listing {
            name: self.name@,
            version: self.version@,
            description: crate::error::text_opt(self.description),
        }
    }
}

/// The formats whose artifacts do not say which package they are.
pub open spec fn exempt(format: Seq<char>) -> bool {
    format == "docker"@ || format == "oci"@
}

/// Whether artifacts of the format do not say which package they are.
pub fn is_exempt_format(format: &str) -> (is: bool)
    ensures
        is == exempt(format@),
{
    same_text(format, "docker") || same_text(format, "oci")
}

/// Whether a file name is that of a checksum, a signature or a description beside a package.
pub open spec fn beside_a_package(file: Seq<char>) -> bool {
    ||| crate::text::has_suffix(file, ".sha1"@)
    ||| crate::text::has_suffix(file, ".sha256"@)
    ||| crate::text::has_suffix(file, ".sha512"@)
    ||| crate::text::has_suffix(file, ".md5"@)
    ||| crate::text::has_suffix(file, ".asc"@)
    ||| crate::text::has_suffix(file, ".sig"@)
    ||| crate::text::has_suffix(file, ".sbom"@)
    ||| crate::text::has_suffix(file, ".metalink"@)
    ||| crate::text::has_suffix(file, ".prov"@)
}

/// Whether a file name is that of an index of a repository.
pub open spec fn index_file(file: Seq<char>) -> bool {
    ||| file == "maven-metadata.xml"@
    ||| file == "index.yaml"@
    ||| file == "apkindex.tar.gz"@
    ||| file == "packages"@
    ||| file == "packages.gz"@
    ||| file == "release"@
    ||| file == "inrelease"@
    ||| file == "release.gpg"@
    ||| file == "repomd.xml"@
    ||| file == "index.json"@
    ||| file == "packages.json"@
}

/// Whether a path is that of a file which is no package, whatever the case of its letters.
pub open spec fn sidecar(path: Seq<char>) -> bool {
    let file = crate::text::lowered(crate::text::after_last(path, '/'));
    beside_a_package(file) || index_file(file) || crate::text::has_infix(
        crate::text::lowered(path),
        "/repodata/"@,
    )
}

/// Whether a path is that of a file which is no package: a checksum, a signature, an index.
pub fn is_sidecar_path(path: &str) -> (is: bool)
    ensures
        is == sidecar(path@),
{
    let last = last_segment(path, '/');
    let name = to_ascii_lowercase(last.as_str());
    let file = name.as_str();
    if ends_with(file, ".sha1") || ends_with(file, ".sha256") || ends_with(file, ".sha512")
        || ends_with(file, ".md5") || ends_with(file, ".asc") || ends_with(file, ".sig")
        || ends_with(file, ".sbom") || ends_with(file, ".metalink") || ends_with(file, ".prov") {
        return true;
    }
    if same_text(file, "maven-metadata.xml") || same_text(file, "index.yaml") || same_text(
        file,
        "apkindex.tar.gz",
    ) || same_text(file, "packages") || same_text(file, "packages.gz") || same_text(file, "release")
        || same_text(file, "inrelease") || same_text(file, "release.gpg") || same_text(
        file,
        "repomd.xml",
    ) || same_text(file, "index.json") || same_text(file, "packages.json") {
        return true;
    }
    contains_text(to_ascii_lowercase(path).as_str(), "/repodata/")
}

/// A text without the white space around it, where anything is left of it.
pub open spec fn inner_text(text: Seq<char>) -> Option<Seq<char>> {
    if crate::text::trimmed(text).len() > 0 {
        Some(crate::text::trimmed(text))
    } else {
        None
    }
}

/// The text at `key` of a manifest, without the white space around it, where anything is left.
pub open spec fn manifest_text(metadata: JsonValue, key: Seq<char>) -> Option<Seq<char>> {
    match metadata.text_at(key) {
        Some(text) => inner_text(text),
        None => None,
    }
}

/// A text without the white space around it, where anything is left of it.
fn non_blank(text: &str) -> (inner: Option<String>)
    ensures
        crate::error::text_opt(inner) == inner_text(text@),
{
    let inner = trim(text);
    if is_empty(inner.as_str()) {
        None
    } else {
        Some(inner)
    }
}

/// The text at `key` of a manifest, without the white space around it, where anything is left.
fn metadata_str(metadata: &Json, key: &str) -> (text: Option<String>)
    ensures
        crate::error::text_opt(text) == manifest_text(metadata@, key@),
{
    match metadata.get_str(key) {
        Some(text) => non_blank(text),
        None => None,
    }
}

/// The name of a package by group and artifact, where its manifest has both.
pub open spec fn grouped_name(metadata: JsonValue) -> Option<Seq<char>> {
    match (manifest_text(metadata, "groupId"@), manifest_text(metadata, "artifactId"@)) {
        (Some(group), Some(artifact)) => Some(group + ":"@ + artifact),
        _ => None,
    }
}

/// The name of a package by group and artifact, where its manifest has both.
fn maven_shaped_name(metadata: &Json) -> (name: Option<String>)
    ensures
        crate::error::text_opt(name) == grouped_name(metadata@),
{
    let group = metadata_str(metadata, "groupId")?;
    let artifact = metadata_str(metadata, "artifactId")?;
    let mut name = group;
    name.append(":");
    name.append(artifact.as_str());
    Some(name)
}

/// A text, unless it is the one that stands for none.
pub open spec fn unless_default(text: Option<Seq<char>>) -> Option<Seq<char>> {
    match text {
        Some(text) => if text == "_"@ {
            None
        } else {
            Some(text)
        },
        None => None,
    }
}

/// The name of a package by user and channel, where its manifest names both.
pub open spec fn referenced_name(metadata: JsonValue, fallback: Seq<char>) -> Seq<char> {
    let name = match manifest_text(metadata, "name"@) {
        Some(name) => name,
        None => fallback,
    };
    match (
        unless_default(manifest_text(metadata, "user"@)),
        unless_default(manifest_text(metadata, "channel"@)),
    ) {
        (Some(user), Some(channel)) => name + "@"@ + user + "/"@ + channel,
        _ => name,
    }
}

/// The text at `key` of a manifest, unless it is the one that stands for none.
fn named_part(metadata: &Json, key: &str) -> (text: Option<String>)
    ensures
        crate::error::text_opt(text) == unless_default(manifest_text(metadata@, key@)),
{
    match metadata_str(metadata, key) {
        Some(text) => if same_text(text.as_str(), "_") {
            None
        } else {
            Some(text)
        },
        None => None,
    }
}

/// The name of a package by user and channel, where its manifest names both.
fn conan_name(metadata: &Json, fallback: &str) -> (name: String)
    ensures
        name@ == referenced_name(metadata@, fallback@),
{
    let mut name = match metadata_str(metadata, "name") {
        Some(name) => name,
        None => fallback.to_string(),
    };
    let user = named_part(metadata, "user");
    let channel = named_part(metadata, "channel");
    match (user, channel) {
        (Some(user), Some(channel)) => {
            name.append("@");
            name.append(user.as_str());
            name.append("/");
            name.append(channel.as_str());
            name
        },
        _ => name,
    }
}

/// The name that an artifact is listed under, before the white space around it is dropped.
pub open spec fn listed_name(facts: Facts) -> Seq<char> {
    if facts.format == "conan"@ {
        referenced_name(facts.metadata, facts.name)
    } else {
        match grouped_name(facts.metadata) {
            Some(name) => name,
            None => match manifest_text(facts.metadata, "name"@) {
                Some(name) => name,
                None => facts.name,
            },
        }
    }
}

/// The version that an artifact is listed under: its own, else its manifest's.
pub open spec fn listed_version(facts: Facts) -> Option<Seq<char>> {
    let own = match facts.version {
        Some(version) => inner_text(version),
        None => None,
    };
    match own {
        Some(version) => Some(version),
        None => manifest_text(facts.metadata, "version"@),
    }
}

/// The description that an artifact is listed with.
pub open spec fn listed_description(facts: Facts) -> Option<Seq<char>> {
    match manifest_text(facts.metadata, "description"@) {
        Some(description) => Some(description),
        None => manifest_text(facts.metadata, "summary"@),
    }
}

/// What an artifact is listed as, where it is a package.
pub open spec fn projected(facts: Facts) -> Option<Listing> {
    let name = crate::text::trimmed(listed_name(facts));
    if exempt(facts.format) || sidecar(facts.path) || name.len() == 0 {
        None
    } else {
        match listed_version(facts) {
            Some(version) => Some(
                Listing { name, version, description: listed_description(facts) },
            ),
            None => None,
        }
    }
}

/// The view of an optional entry.
pub open spec fn entry_opt(entry: Option<CatalogEntry>) -> Option<Listing> {
    match entry {
        Some(entry) => Some(entry@),
        None => None,
    }
}

/// What an artifact is listed as, where it is a package.
pub fn project(facts: &ArtifactFacts<'_>) -> (entry: Option<CatalogEntry>)
    ensures
        entry_opt(entry) == projected(facts@),
{
    if is_exempt_format(facts.format) || is_sidecar_path(facts.path) {
        return None;
    }
    let full = if same_text(facts.format, "conan") {
        conan_name(facts.metadata, facts.name)
    } else {
        match maven_shaped_name(facts.metadata) {
            Some(name) => name,
            None => match metadata_str(facts.metadata, "name") {
                Some(name) => name,
                None => facts.name.to_string(),
            },
        }
    };
    let name = trim(full.as_str());
    if is_empty(name.as_str()) {
        return None;
    }
    let own = match facts.version {
        Some(version) => non_blank(version),
        None => None,
    };
    let version = match own {
        Some(version) => version,
        None => metadata_str(facts.metadata, "version")?,
    };
    let description = match metadata_str(facts.metadata, "description") {
        Some(description) => Some(description),
        None => metadata_str(facts.metadata, "summary"),
    };
    let entry = CatalogEntry { name, version, description };
    assert(entry@ =~= projected(facts@)->Some_0);
    Some(entry)
}

/// A stored artifact with its manifest.
#[derive(Debug)]
pub struct StoredArtifact {
    pub id: u128,
    pub repository_id: u128,
    pub name: String,
    pub version: Option<String>,
    pub path: String,
    pub size_bytes: i64,
    pub checksum_sha256: String,
    pub format: String,
    pub metadata: Json,
}

impl StoredArtifact {
    /// What is known of this artifact, as mathematics.
    pub open spec fn known(&self) -> Facts {
        Facts {
            format: self.format@,
            metadata: self.metadata@,
            name: self.name@,
            version: crate::error::text_opt(self.version),
            path: self.path@,
        }
    }

    /// What is known of this artifact.
    pub fn facts(&self) -> (facts: ArtifactFacts<'_>)
        ensures
            facts@ == self.known(),
    {
        ArtifactFacts {
            format: self.format.as_str(),
            metadata: &self.metadata,
            name: self.name.as_str(),
            version: match &self.version {
                Some(version) => Some(version.as_str()),
                None => None,
            },
            path: self.path.as_str(),
        }
    }
}

/// What is put into the catalog for an artifact.
#[derive(Debug)]
pub struct CatalogRegistration {
    pub repository_id: u128,
    pub entry: CatalogEntry,
    pub size_bytes: i64,
    pub checksum_sha256: String,
    pub metadata: Json,
}

/// Whether a registration is the one of a stored artifact.
pub open spec fn registers(registration: CatalogRegistration, stored: StoredArtifact) -> bool {
    &&& projected(stored.known()) == Some(registration.entry@)
    &&& registration.repository_id == stored.repository_id
    &&& registration.size_bytes == stored.size_bytes
    &&& registration.checksum_sha256@ == stored.checksum_sha256@
    &&& registration.metadata@ == crate::json::empty_object().with(
        "format"@,
        JsonValue::Text(stored.format@),
    )
}

/// What is put into the catalog for a stored artifact, where it is a package.
pub fn register_artifact(stored: &StoredArtifact) -> (registration: Option<CatalogRegistration>)
    ensures
        match registration {
            Some(registration) => registers(registration, *stored),
            None => projected(stored.known()) is None,
        },
{
    let entry = project(&stored.facts())?;
    let mut metadata = Json::object();
    metadata.insert("format", Json::text(stored.format.as_str()));
    Some(
        CatalogRegistration {
            repository_id: stored.repository_id,
            entry,
            size_bytes: stored.size_bytes,
            checksum_sha256: stored.checksum_sha256.as_str().to_string(),
            metadata,
        },
    )
}

/// What one pass over stored artifacts did, and where the next one goes on.
#[derive(Debug, Default, Clone, PartialEq, Eq)]
pub struct BackfillReport {
    /// The artifacts looked at.
    pub scanned: i64,
    /// Those that are packages.
    pub registered: i64,
    /// Those that are not.
    pub skipped: i64,
    /// The last artifact looked at, where there may be more behind it.
    pub next_cursor: Option<u128>,
}

/// The artifacts that are packages, in their order.
pub open spec fn packages(rows: Seq<StoredArtifact>) -> Seq<StoredArtifact>
    decreases rows.len(),
{
    if rows.len() == 0 {
        Seq::empty()
    } else if projected(rows.last().known()) is Some {
        packages(rows.drop_last()).push(rows.last())
    } else {
        packages(rows.drop_last())
    }
}

/// Where a scan goes on behind a page of at most `limit` artifacts: a short page is the last.
pub open spec fn cursor_after(page: Seq<StoredArtifact>, limit: int) -> Option<u128> {
    if page.len() == limit && page.len() > 0 {
        Some(page.last().id)
    } else {
        None
    }
}

/// What is put into the catalog for one page of stored artifacts, and the report on it. `rows` are
/// the artifacts behind the cursor, at most `limit` of them, in the order of their identifiers.
pub fn backfill(rows: &Vec<StoredArtifact>, limit: i64) -> (done: (
    BackfillReport,
    Vec<CatalogRegistration>,
))
    requires
        rows@.len() <= i64::MAX,
    ensures
        done.0.scanned == rows@.len(),
        done.0.registered == packages(rows@).len(),
        done.0.registered + done.0.skipped == done.0.scanned,
        done.0.next_cursor == cursor_after(rows@, limit as int),
        done.1@.len() == packages(rows@).len(),
        forall|i: int|
            0 <= i < done.1@.len() ==> registers(#[trigger] done.1@[i], packages(rows@)[i]),
{
    let n: usize = rows.len();
    let scanned: i64 = n as i64;
    let next_cursor: Option<u128> = if scanned == limit && n > 0 {
        Some(rows[n - 1].id)
    } else {
        None
    };
    let mut registered: i64 = 0;
    let mut skipped: i64 = 0;
    let mut registrations: Vec<CatalogRegistration> = Vec::new();
    let mut i: usize = 0;
    while i < n
        invariant
            i <= n,
            n == rows@.len(),
            n <= i64::MAX,
            registered == packages(rows@.take(i as int)).len(),
            0 <= skipped,
            registered + skipped == i,
            registrations@.len() == registered,
            forall|k: int|
                0 <= k < registrations@.len() ==> registers(
                    #[trigger] registrations@[k],
                    packages(rows@.take(i as int))[k],
                ),
        decreases n - i,
    {
        proof {
            assert(rows@.take(i + 1).drop_last() =~= rows@.take(i as int));
            assert(rows@.take(i + 1).last() == rows@[i as int]);
        }
        match register_artifact(&rows[i]) {
            Some(registration) => {
                registrations.push(registration);
                registered += 1;
            },
            None => {
                skipped += 1;
            },
        }
        i += 1;
    }
    assert(rows@.take(i as int) =~= rows@);
    (BackfillReport { scanned, registered, skipped, next_cursor }, registrations)
}

/// What is listed is a package, under a name and a version that are there and have no white space
/// around them.
pub proof fn listings_are_named_and_versioned(facts: Facts)
    requires
        projected(facts) is Some,
    ensures
        !exempt(facts.format),
        !sidecar(facts.path),
        ({
            let listing = projected(facts)->Some_0;
            &&& listing.name.len() > 0 && crate::text::tight(listing.name)
            &&& listing.version.len() > 0 && crate::text::tight(listing.version)
            &&& match listing.description {
                Some(description) => description.len() > 0 && crate::text::tight(description),
                None => true,
            }
        }),
{
    crate::text::trimming_is_idempotent(listed_name(facts));
    lemma_inner_texts();
}

/// What is left of a text has no white space around it.
proof fn lemma_inner_texts()
    ensures
        forall|text: Seq<char>|
            (#[trigger] inner_text(text)) is Some ==> inner_text(text)->Some_0.len() > 0
                && crate::text::tight(inner_text(text)->Some_0),
{
    assert forall|text: Seq<char>| (#[trigger] inner_text(text)) is Some implies inner_text(
        text,
    )->Some_0.len() > 0 && crate::text::tight(inner_text(text)->Some_0) by {
        crate::text::trimming_is_idempotent(text);
    }
}

/// A page of artifacts is brought in as if each of them were registered when it was stored: the
/// packages of two pages are those of the one that holds both.
pub proof fn pages_are_brought_in_one_after_another(
    first: Seq<StoredArtifact>,
    second: Seq<StoredArtifact>,
)
    ensures
        packages(first + second) == packages(first) + packages(second),
    decreases second.len(),
{
    if second.len() == 0 {
        assert(first + second =~= first);
        assert(packages(first) + packages(second) =~= packages(first));
    } else {
        pages_are_brought_in_one_after_another(first, second.drop_last());
        assert((first + second).drop_last() =~= first + second.drop_last());
        assert((first + second).last() == second.last());
        assert(packages(first + second) =~= packages(first) + packages(second));
    }
}

/// Whether artifacts stand in the order of their identifiers.
pub open spec fn by_identifier(rows: Seq<StoredArtifact>) -> bool {
    forall|i: int, j: int|
        0 <= i < j < rows.len() ==> (#[trigger] rows[i]).id < (#[trigger] rows[j]).id
}

/// The artifacts behind a cursor, all of them without one.
pub open spec fn behind(rows: Seq<StoredArtifact>, cursor: Option<u128>) -> Seq<StoredArtifact>
    decreases rows.len(),
{
    if rows.len() == 0 {
        Seq::empty()
    } else {
        let front = behind(rows.drop_last(), cursor);
        match cursor {
            Some(cursor) => if rows.last().id > cursor {
                front.push(rows.last())
            } else {
                front
            },
            None => front.push(rows.last()),
        }
    }
}

/// The first artifacts behind a cursor, at most `limit` of them.
pub open spec fn page_behind(
    rows: Seq<StoredArtifact>,
    cursor: Option<u128>,
    limit: int,
) -> Seq<StoredArtifact> {
    let left = behind(rows, cursor);
    if left.len() < limit {
        left
    } else {
        left.take(limit)
    }
}

/// What is behind a cursor starts where the identifiers get larger than it.
proof fn lemma_behind(rows: Seq<StoredArtifact>, cursor: Option<u128>, start: int)
    requires
        0 <= start <= rows.len(),
        match cursor {
            Some(cursor) => {
                &&& forall|i: int| 0 <= i < start ==> (#[trigger] rows[i]).id <= cursor
                &&& forall|i: int| start <= i < rows.len() ==> (#[trigger] rows[i]).id > cursor
            },
            None => start == 0,
        },
    ensures
        behind(rows, cursor) == rows.skip(start),
    decreases rows.len(),
{
    if rows.len() > 0 {
        let front = rows.drop_last();
        if start == rows.len() {
            lemma_behind(front, cursor, start - 1);
            assert(rows[start - 1].id <= cursor->Some_0);
        } else {
            lemma_behind(front, cursor, start);
            assert(cursor is Some ==> rows[rows.len() - 1].id > cursor->Some_0);
        }
    }
    assert(behind(rows, cursor) =~= rows.skip(start));
}

/// Where the identifiers get larger than a cursor.
proof fn start_behind(rows: Seq<StoredArtifact>, cursor: Option<u128>) -> (start: int)
    requires
        by_identifier(rows),
    ensures
        0 <= start <= rows.len(),
        behind(rows, cursor) == rows.skip(start),
    decreases rows.len(),
{
    let mut start = 0;
    if cursor is Some && rows.len() > 0 {
        if rows.last().id <= cursor->Some_0 {
            assert forall|i: int| 0 <= i < rows.len() implies (#[trigger] rows[i]).id
                <= cursor->Some_0 by {
                if i < rows.len() - 1 {
                    assert(rows[i].id < rows[rows.len() - 1].id);
                }
            }
            start = rows.len() as int;
            lemma_behind(rows, cursor, start);
        } else {
            let front = rows.drop_last();
            start = start_behind(front, cursor);
            assert(behind(rows, cursor) =~= rows.skip(start));
        }
    } else {
        lemma_behind(rows, cursor, 0);
    }
    start
}

/// A scan reaches every artifact: behind the cursor that a page ends with stand exactly the
/// artifacts that the page left out, and a page that ends without one left out none.
pub proof fn scans_reach_every_artifact(
    rows: Seq<StoredArtifact>,
    cursor: Option<u128>,
    limit: int,
)
    requires
        by_identifier(rows),
        limit > 0,
    ensures
        ({
            let left = behind(rows, cursor);
            let page = page_behind(rows, cursor, limit);
            match cursor_after(page, limit) {
                Some(next) => {
                    &&& left == page + behind(rows, Some(next))
                    &&& behind(rows, Some(next)).len() < left.len()
                },
                None => left == page,
            }
        }),
{
    let left = behind(rows, cursor);
    let page = page_behind(rows, cursor, limit);
    if let Some(next) = cursor_after(page, limit) {
        let start = start_behind(rows, cursor);
        let last = start + limit - 1;
        assert(page =~= rows.subrange(start, start + limit));
        assert(next == rows[last].id);
        lemma_behind(rows, Some(next), last + 1);
        assert(left =~= page + behind(rows, Some(next)));
    }
}

} // verus!
