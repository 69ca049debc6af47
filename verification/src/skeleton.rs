//! Version histories: what is kept of them, how they are bounded, and the version records that
//! are built from them.

use vstd::prelude::*;
use vstd::hash_map::StringHashMap;
use vstd::hash_set::StringHashSet;

use crate::bounds::GALLERY_VERSIONS_PER_CHANNEL;
use crate::coordinate::{
    is_safe_gallery_segment, is_safe_target_platform, normal_target_platform,
    vscode_age_gate_package, vscode_age_gate_version,
};
use crate::json::{Json, JsonValue};
use crate::percent::encode;
use crate::query::{GALLERY_INCLUDE_ASSET_URI_FLAG, GALLERY_INCLUDE_FILES_FLAG};
use crate::text::same_text;
use crate::time::{arrange_newest_first, gallery_parse_last_updated, PublishTime};

verus! {

/// One version of a history as the upstream reports it.
#[derive(Debug)]
pub struct GallerySkeletonWireVersion {
    pub version: String,
    pub target_platform: Option<String>,
    pub last_updated: Option<String>,
    pub properties: Option<Vec<GallerySkeletonWireProperty>>,
}

/// One property of a version.
#[derive(Debug)]
pub struct GallerySkeletonWireProperty {
    pub key: Option<String>,
    pub value: Option<String>,
}

/// One extension as the upstream reports it.
#[derive(Debug)]
pub struct GallerySkeletonWireExtension {
    pub publisher: Option<GallerySkeletonWirePublisher>,
    pub extension_name: Option<String>,
    pub versions: Vec<GallerySkeletonWireVersion>,
}

/// The publisher of an extension.
#[derive(Debug)]
pub struct GallerySkeletonWirePublisher {
    pub publisher_name: Option<String>,
}

/// One result as the upstream reports it.
#[derive(Debug)]
pub struct GallerySkeletonWireResult {
    pub extensions: Vec<GallerySkeletonWireExtension>,
}

/// The upstream's answer to a query for a history.
#[derive(Debug)]
pub struct GallerySkeletonWireDocument {
    pub results: Vec<GallerySkeletonWireResult>,
}

/// What is kept of one version of a history.
#[derive(Debug)]
pub struct GallerySkeletonVersion {
    pub version: String,
    pub target_platform: String,
    pub last_updated: Option<PublishTime>,
    pub prerelease: bool,
    pub engine: Option<String>,
}

/// What is kept of one version, as mathematics.
#[verifier::ext_equal]
pub struct SkeletonEntry {
    pub version: Seq<char>,
    pub target_platform: Seq<char>,
    pub last_updated: Option<(i64, u32)>,
    pub prerelease: bool,
    pub engine: Option<Seq<char>>,
}

impl View for GallerySkeletonVersion {
    type V = SkeletonEntry;

    open spec fn view(&self) -> SkeletonEntry {
        SkeletonEntry {
            version: self.version@,
            target_platform: self.target_platform@,
            last_updated: crate::time::time_view(self.last_updated),
            prerelease: self.prerelease,
            engine: crate::error::text_opt(self.engine),
        }
    }
}

/// The views of a history.
pub open spec fn skeleton_views(versions: Seq<GallerySkeletonVersion>) -> Seq<SkeletonEntry> {
    versions.map_values(|version: GallerySkeletonVersion| version@)
}

/// The property that tells a pre-release from a stable version.
pub open spec fn prerelease_key() -> Seq<char> {
    "Microsoft.VisualStudio.Code.PreRelease"@
}

/// The property that names the engine a version is for.
pub open spec fn engine_key() -> Seq<char> {
    "Microsoft.VisualStudio.Code.Engine"@
}

/// Whether the properties say pre-release: the last of them that says anything counts.
pub open spec fn prerelease_in(properties: Seq<GallerySkeletonWireProperty>) -> bool
    decreases properties.len(),
{
    if properties.len() == 0 {
        false
    } else if crate::error::text_opt(properties.last().key) == Some(prerelease_key()) {
        crate::error::text_opt(properties.last().value) == Some("true"@)
    } else {
        prerelease_in(properties.drop_last())
    }
}

/// The engine that the properties name: the last of them that has the key counts.
pub open spec fn engine_in(properties: Seq<GallerySkeletonWireProperty>) -> Option<Seq<char>>
    decreases properties.len(),
{
    if properties.len() == 0 {
        None
    } else if crate::error::text_opt(properties.last().key) == Some(engine_key()) {
        crate::error::text_opt(properties.last().value)
    } else {
        engine_in(properties.drop_last())
    }
}

/// The properties of a version, none where it has no list of them.
pub open spec fn properties_of(wire: GallerySkeletonWireVersion) -> Seq<
    GallerySkeletonWireProperty,
> {
    match wire.properties {
        Some(properties) => properties@,
        None => Seq::empty(),
    }
}

/// What is kept of a version, where its name and its platform may stand in a path.
pub open spec fn entry_of(wire: GallerySkeletonWireVersion) -> Option<SkeletonEntry> {
    let platform = crate::coordinate::platform_of(crate::error::text_opt(wire.target_platform));
    if crate::coordinate::safe_segment(wire.version@) && crate::coordinate::safe_platform(platform) {
        Some(
            SkeletonEntry {
                version: wire.version@,
                target_platform: platform,
                last_updated: match wire.last_updated {
                    Some(text) => crate::time::rfc3339_instant(text@),
                    None => None,
                },
                prerelease: prerelease_in(properties_of(wire)),
                engine: engine_in(properties_of(wire)),
            },
        )
    } else {
        None
    }
}

/// What is kept of a list of versions.
pub open spec fn entries_of(versions: Seq<GallerySkeletonWireVersion>) -> Seq<SkeletonEntry>
    decreases versions.len(),
{
    if versions.len() == 0 {
        Seq::empty()
    } else {
        match entry_of(versions.last()) {
            Some(entry) => entries_of(versions.drop_last()).push(entry),
            None => entries_of(versions.drop_last()),
        }
    }
}

/// The identity of an extension that the upstream reports.
pub open spec fn wire_package(extension: GallerySkeletonWireExtension) -> Seq<char> {
    crate::coordinate::package_of(
        match extension.publisher {
            Some(publisher) => text_or_empty(publisher.publisher_name),
            None => Seq::empty(),
        },
        text_or_empty(extension.extension_name),
    )
}

/// A text, empty where there is none.
pub open spec fn text_or_empty(text: Option<String>) -> Seq<char> {
    match text {
        Some(text) => text@,
        None => Seq::empty(),
    }
}

/// What is kept of the extensions in a list that are `package`.
pub open spec fn extension_entries(
    extensions: Seq<GallerySkeletonWireExtension>,
    package: Seq<char>,
) -> Seq<SkeletonEntry>
    decreases extensions.len(),
{
    if extensions.len() == 0 {
        Seq::empty()
    } else if wire_package(extensions.last()) == package {
        extension_entries(extensions.drop_last(), package) + entries_of(extensions.last().versions@)
    } else {
        extension_entries(extensions.drop_last(), package)
    }
}

/// What is kept of `package` in a list of results.
pub open spec fn result_entries(
    results: Seq<GallerySkeletonWireResult>,
    package: Seq<char>,
) -> Seq<SkeletonEntry>
    decreases results.len(),
{
    if results.len() == 0 {
        Seq::empty()
    } else {
        result_entries(results.drop_last(), package) + extension_entries(
            results.last().extensions@,
            package,
        )
    }
}

/// A text, empty where there is none.
fn or_empty(text: Option<String>) -> (whole: String)
    ensures
        whole@ == text_or_empty(text),
{
    match text {
        Some(text) => text,
        None => String::new(),
    }
}

/// Whether an optional text is the given one.
fn is_text(text: &Option<String>, wanted: &str) -> (is: bool)
    ensures
        is == (crate::error::text_opt(*text) == Some(wanted@)),
{
    match text {
        Some(text) => same_text(text.as_str(), wanted),
        None => false,
    }
}

/// What the properties say of release channel and engine.
fn read_properties(properties: Option<Vec<GallerySkeletonWireProperty>>) -> (read: (
    bool,
    Option<String>,
))
    ensures
        ({
            let all = match properties {
                Some(properties) => properties@,
                None => Seq::empty(),
            };
            &&& read.0 == prerelease_in(all)
            &&& crate::error::text_opt(read.1) == engine_in(all)
        }),
{
    let mut prerelease = false;
    let mut engine: Option<String> = None;
    if let Some(properties) = properties {
        for property in it: properties
            invariant
                it.seq() == properties@,
                prerelease == prerelease_in(properties@.take(it.index() as int)),
                crate::error::text_opt(engine) == engine_in(properties@.take(it.index() as int)),
        {
            proof {
                let at = it.index() as int;
                assert(properties@.take(at + 1).drop_last() =~= properties@.take(at));
                assert(properties@.take(at + 1).last() == property);
                reveal_strlit("Microsoft.VisualStudio.Code.PreRelease");
                reveal_strlit("Microsoft.VisualStudio.Code.Engine");
                assert(prerelease_key().len() == 38);
                assert(engine_key().len() == 34);
            }
            if is_text(&property.key, "Microsoft.VisualStudio.Code.PreRelease") {
                prerelease = is_text(&property.value, "true");
            } else if is_text(&property.key, "Microsoft.VisualStudio.Code.Engine") {
                engine = property.value;
            }
        }
        assert(properties@.take(properties@.len() as int) =~= properties@);
    }
    (prerelease, engine)
}

/// What is kept of a version, where its name and its platform may stand in a path.
fn read_version(wire: GallerySkeletonWireVersion) -> (kept: Option<GallerySkeletonVersion>)
    ensures
        match kept {
            Some(kept) => entry_of(wire) == Some(kept@),
            None => entry_of(wire) is None,
        },
{
    let GallerySkeletonWireVersion { version, target_platform, last_updated, properties } = wire;
    let platform = match &target_platform {
        Some(platform) => normal_target_platform(Some(platform.as_str())),
        None => normal_target_platform(None),
    };
    if !is_safe_gallery_segment(version.as_str()) || !is_safe_target_platform(platform.as_str()) {
        return None;
    }
    let date = match &last_updated {
        Some(text) => gallery_parse_last_updated(text.as_str()),
        None => None,
    };
    let (prerelease, engine) = read_properties(properties);
    let kept = GallerySkeletonVersion {
        version,
        target_platform: platform,
        last_updated: date,
        prerelease,
        engine,
    };
    assert(entry_of(wire)->Some_0 =~= kept@);
    Some(kept)
}

/// Keeps what is kept of a list of versions.
fn read_versions(
    wire: Vec<GallerySkeletonWireVersion>,
    versions: &mut Vec<GallerySkeletonVersion>,
)
    ensures
        skeleton_views(final(versions)@) == skeleton_views(old(versions)@) + entries_of(wire@),
{
    let ghost start = skeleton_views(versions@);
    assert(start + entries_of(wire@.take(0)) =~= start);
    for item in it: wire
        invariant
            it.seq() == wire@,
            skeleton_views(versions@) == start + entries_of(wire@.take(it.index() as int)),
    {
        proof {
            let at = it.index() as int;
            assert(wire@.take(at + 1).drop_last() =~= wire@.take(at));
            assert(wire@.take(at + 1).last() == item);
        }
        let ghost held = skeleton_views(versions@);
        if let Some(kept) = read_version(item) {
            versions.push(kept);
            assert(skeleton_views(versions@) =~= held.push(kept@));
            assert(skeleton_views(versions@) =~= start + entries_of(
                wire@.take(it.index() as int),
            ).push(kept@));
        }
    }
    assert(wire@.take(wire@.len() as int) =~= wire@);
}

/// Keeps what is kept of the extensions in a list that are `package`.
fn read_extensions(
    extensions: Vec<GallerySkeletonWireExtension>,
    package: &str,
    versions: &mut Vec<GallerySkeletonVersion>,
)
    ensures
        skeleton_views(final(versions)@) == skeleton_views(old(versions)@) + extension_entries(
            extensions@,
            package@,
        ),
{
    let ghost start = skeleton_views(versions@);
    assert(start + extension_entries(extensions@.take(0), package@) =~= start);
    for extension in it: extensions
        invariant
            it.seq() == extensions@,
            skeleton_views(versions@) == start + extension_entries(
                extensions@.take(it.index() as int),
                package@,
            ),
    {
        let ghost at = it.index() as int;
        proof {
            assert(extensions@.take(at + 1).drop_last() =~= extensions@.take(at));
            assert(extensions@.take(at + 1).last() == extension);
        }
        let GallerySkeletonWireExtension { publisher, extension_name, versions: wire } = extension;
        let publisher_name = match publisher {
            Some(publisher) => or_empty(publisher.publisher_name),
            None => String::new(),
        };
        let name = or_empty(extension_name);
        let found = vscode_age_gate_package(publisher_name.as_str(), name.as_str());
        assert(found@ == wire_package(extension)) by {
            assert(publisher_name@ =~= (match extension.publisher {
                Some(publisher) => text_or_empty(publisher.publisher_name),
                None => Seq::empty(),
            }));
        }
        if same_text(found.as_str(), package) {
            let ghost held = skeleton_views(versions@);
            read_versions(wire, versions);
            assert(start + (extension_entries(extensions@.take(at), package@) + entries_of(wire@))
                =~= held + entries_of(wire@));
        }
    }
    assert(extensions@.take(extensions@.len() as int) =~= extensions@);
}

/// What is kept of the history of `package`. A document that names other extensions contributes
/// nothing of theirs, and a version that may not stand in a path is left out.
pub fn gallery_skeleton_versions(document: GallerySkeletonWireDocument, package: &str) -> (
versions: Vec<GallerySkeletonVersion>)
    ensures
        skeleton_views(versions@) == result_entries(document.results@, package@),
{
    let mut versions: Vec<GallerySkeletonVersion> = Vec::new();
    let results = document.results;
    assert(skeleton_views(versions@) =~= result_entries(results@.take(0), package@));
    for result in it: results
        invariant
            it.seq() == results@,
            skeleton_views(versions@) == result_entries(
                results@.take(it.index() as int),
                package@,
            ),
    {
        proof {
            let at = it.index() as int;
            assert(results@.take(at + 1).drop_last() =~= results@.take(at));
            assert(results@.take(at + 1).last() == result);
        }
        read_extensions(result.extensions, package, &mut versions);
    }
    assert(results@.take(results@.len() as int) =~= results@);
    versions
}

/// The dates of a history.
pub open spec fn entry_dates(entries: Seq<SkeletonEntry>) -> Seq<Option<(i64, u32)>> {
    entries.map_values(|entry: SkeletonEntry| entry.last_updated)
}

/// A history, newest first.
pub open spec fn sorted_entries(entries: Seq<SkeletonEntry>) -> Seq<SkeletonEntry> {
    crate::time::arranged(entries, crate::time::newest_first(entry_dates(entries)))
}

/// Puts a history newest first, undated versions last, and versions of one date in their order.
pub fn sort_skeleton_newest_first(versions: Vec<GallerySkeletonVersion>) -> (sorted: Vec<
    GallerySkeletonVersion,
>)
    ensures
        skeleton_views(sorted@) == sorted_entries(skeleton_views(versions@)),
{
    let mut dates: Vec<Option<PublishTime>> = Vec::new();
    let mut i: usize = 0;
    while i < versions.len()
        invariant
            i <= versions@.len(),
            dates@.len() == i,
            forall|k: int| 0 <= k < i ==> #[trigger] dates@[k] == versions@[k].last_updated,
        decreases versions@.len() - i,
    {
        dates.push(versions[i].last_updated);
        i += 1;
    }
    let ghost entries = skeleton_views(versions@);
    proof {
        assert(crate::time::date_views(dates@) =~= entry_dates(entries));
        crate::time::newest_first_is_listed(entry_dates(entries));
    }
    let sorted = arrange_newest_first(versions, &dates);
    proof {
        let order = crate::time::newest_first(entry_dates(entries));
        assert forall|p: int| 0 <= p < order.len() implies #[trigger] skeleton_views(sorted@)[p]
            == sorted_entries(entries)[p] by {
            assert(0 <= order[p] < versions@.len());
        }
        assert(skeleton_views(sorted@) =~= sorted_entries(entries));
    }
    sorted
}

/// The coordinate of a version of a history.
pub open spec fn entry_coordinate(entry: SkeletonEntry) -> Seq<char> {
    crate::coordinate::coordinate_of(entry.version, Some(entry.target_platform))
}

/// Whether a coordinate is among those of a history.
pub open spec fn has_coordinate(entries: Seq<SkeletonEntry>, coordinate: Seq<char>) -> bool {
    exists|i: int| 0 <= i < entries.len() && entry_coordinate(#[trigger] entries[i]) == coordinate
}

/// How many versions of a history are of a platform and a release channel.
pub open spec fn channel_count(
    entries: Seq<SkeletonEntry>,
    platform: Seq<char>,
    prerelease: bool,
) -> nat
    decreases entries.len(),
{
    if entries.len() == 0 {
        0
    } else if entries.last().target_platform == platform && entries.last().prerelease
        == prerelease {
        channel_count(entries.drop_last(), platform, prerelease) + 1
    } else {
        channel_count(entries.drop_last(), platform, prerelease)
    }
}

/// The first versions of each platform and release channel, at most
/// [`GALLERY_VERSIONS_PER_CHANNEL`] of them, each coordinate at its first place only.
pub open spec fn bounded(entries: Seq<SkeletonEntry>) -> Seq<SkeletonEntry>
    decreases entries.len(),
{
    if entries.len() == 0 {
        Seq::empty()
    } else {
        let kept = bounded(entries.drop_last());
        let entry = entries.last();
        if has_coordinate(entries.drop_last(), entry_coordinate(entry)) || channel_count(
            kept,
            entry.target_platform,
            entry.prerelease,
        ) >= GALLERY_VERSIONS_PER_CHANNEL {
            kept
        } else {
            kept.push(entry)
        }
    }
}

/// Counts of versions by platform and release channel.
struct ChannelCounts {
    stable: StringHashMap<usize>,
    prerelease: StringHashMap<usize>,
}

impl ChannelCounts {
    /// The count noted for a platform and a release channel.
    spec fn noted(&self, platform: Seq<char>, prerelease: bool) -> nat {
        let counts = if prerelease {
            self.prerelease@
        } else {
            self.stable@
        };
        if counts.contains_key(platform) {
            counts[platform] as nat
        } else {
            0
        }
    }

    /// Whether the counts are those of `entries`.
    spec fn counts(&self, entries: Seq<SkeletonEntry>) -> bool {
        forall|platform: Seq<char>, prerelease: bool| #[trigger]
            self.noted(platform, prerelease) == channel_count(entries, platform, prerelease)
    }

    /// Notes a version, where its platform and release channel are not full.
    fn take_slot(
        &mut self,
        platform: &str,
        prerelease: bool,
        Ghost(entries): Ghost<Seq<SkeletonEntry>>,
        Ghost(entry): Ghost<SkeletonEntry>,
    ) -> (taken: bool)
        requires
            old(self).counts(entries),
            entry.target_platform == platform@,
            entry.prerelease == prerelease,
        ensures
            taken == (channel_count(entries, platform@, prerelease)
                < GALLERY_VERSIONS_PER_CHANNEL),
            final(self).counts(
                if taken {
                    entries.push(entry)
                } else {
                    entries
                },
            ),
    {
        assert(self.noted(platform@, prerelease) == channel_count(entries, platform@, prerelease));
        let found = if prerelease {
            self.prerelease.get(platform)
        } else {
            self.stable.get(platform)
        };
        let kept: usize = match found {
            Some(kept) => *kept,
            None => 0,
        };
        if kept >= GALLERY_VERSIONS_PER_CHANNEL {
            return false;
        }
        if prerelease {
            self.prerelease.insert(platform.to_string(), kept + 1);
        } else {
            self.stable.insert(platform.to_string(), kept + 1);
        }
        proof {
            let after = entries.push(entry);
            assert(after.drop_last() =~= entries);
            assert forall|p: Seq<char>, b: bool| #[trigger] self.noted(p, b) == channel_count(
                after,
                p,
                b,
            ) by {
                assert(old(self).noted(p, b) == channel_count(entries, p, b));
            }
        }
        true
    }
}

/// Keeps the newest versions of each platform and release channel, at most
/// [`GALLERY_VERSIONS_PER_CHANNEL`] of them, newest first. A coordinate that is listed twice is
/// kept once.
pub fn select_bounded_gallery_versions(versions: Vec<GallerySkeletonVersion>) -> (selected: Vec<
    GallerySkeletonVersion,
>)
    ensures
        skeleton_views(selected@) == bounded(sorted_entries(skeleton_views(versions@))),
{
    let sorted = sort_skeleton_newest_first(versions);
    let ghost entries = skeleton_views(sorted@);
    let mut seen = StringHashSet::new();
    let mut counts = ChannelCounts {
        stable: StringHashMap::new(),
        prerelease: StringHashMap::new(),
    };
    let mut selected: Vec<GallerySkeletonVersion> = Vec::new();
    proof {
        assert(skeleton_views(selected@) =~= bounded(entries.take(0)));
        assert(counts.counts(Seq::empty()));
    }
    for version in it: sorted
        invariant
            it.seq() == sorted@,
            entries == skeleton_views(sorted@),
            skeleton_views(selected@) == bounded(entries.take(it.index() as int)),
            counts.counts(bounded(entries.take(it.index() as int))),
            forall|coordinate: Seq<char>| #[trigger]
                seen@.contains(coordinate) <==> has_coordinate(
                    entries.take(it.index() as int),
                    coordinate,
                ),
    {
        let ghost at = it.index() as int;
        let ghost front = entries.take(at);
        let ghost kept = bounded(front);
        proof {
            assert(entries.take(at + 1) =~= front.push(version@));
            assert(entries.take(at + 1).drop_last() =~= front);
            lemma_has_coordinate(front, version@);
        }
        let coordinate = vscode_age_gate_version(
            version.version.as_str(),
            Some(version.target_platform.as_str()),
        );
        if seen.insert(coordinate) {
            let taken = counts.take_slot(
                version.target_platform.as_str(),
                version.prerelease,
                Ghost(kept),
                Ghost(version@),
            );
            if taken {
                let ghost held = skeleton_views(selected@);
                selected.push(version);
                assert(skeleton_views(selected@) =~= held.push(version@));
            }
        }
    }
    assert(entries.take(entries.len() as int) =~= entries);
    selected
}

/// One version more has one coordinate more.
pub proof fn lemma_has_coordinate(entries: Seq<SkeletonEntry>, entry: SkeletonEntry)
    ensures
        forall|coordinate: Seq<char>| #[trigger]
            has_coordinate(entries.push(entry), coordinate) <==> has_coordinate(entries, coordinate)
                || coordinate == entry_coordinate(entry),
{
    let after = entries.push(entry);
    assert forall|coordinate: Seq<char>| #[trigger]
        has_coordinate(after, coordinate) <==> has_coordinate(entries, coordinate) || coordinate
            == entry_coordinate(entry) by {
        if has_coordinate(entries, coordinate) {
            let i = choose|i: int|
                0 <= i < entries.len() && entry_coordinate(#[trigger] entries[i]) == coordinate;
            assert(after[i] == entries[i]);
        }
        if coordinate == entry_coordinate(entry) {
            assert(after[entries.len() as int] == entry);
        }
        if has_coordinate(after, coordinate) {
            let i = choose|i: int|
                0 <= i < after.len() && entry_coordinate(#[trigger] after[i]) == coordinate;
            if i < entries.len() {
                assert(entries[i] == after[i]);
            }
        }
    }
}

/// When the first version of a name and a platform was published, if the history has one.
pub open spec fn exact_date(
    entries: Seq<SkeletonEntry>,
    version: Seq<char>,
    platform: Seq<char>,
) -> Option<Option<(i64, u32)>>
    decreases entries.len(),
{
    if entries.len() == 0 {
        None
    } else if entries[0].version == version && entries[0].target_platform == platform {
        Some(entries[0].last_updated)
    } else {
        exact_date(entries.drop_first(), version, platform)
    }
}

/// When a version of a platform was published, if the history has it. It may have it undated.
pub fn find_gallery_exact_version(
    skeleton: &Vec<GallerySkeletonVersion>,
    version: &str,
    target_platform: &str,
) -> (found: Option<Option<PublishTime>>)
    ensures
        (match found {
            Some(date) => Some(crate::time::time_view(date)),
            None => None,
        }) == exact_date(
            skeleton_views(skeleton@),
            version@,
            crate::coordinate::platform_of(Some(target_platform@)),
        ),
{
    let platform = normal_target_platform(Some(target_platform));
    let ghost entries = skeleton_views(skeleton@);
    assert(entries.skip(0) =~= entries);
    let mut i: usize = 0;
    while i < skeleton.len()
        invariant
            i <= skeleton@.len(),
            entries == skeleton_views(skeleton@),
            platform@ == crate::coordinate::platform_of(Some(target_platform@)),
            exact_date(entries.skip(i as int), version@, platform@) == exact_date(
                entries,
                version@,
                platform@,
            ),
        decreases skeleton@.len() - i,
    {
        let candidate = &skeleton[i];
        assert(entries.skip(i as int)[0] == candidate@);
        assert(entries.skip(i as int).drop_first() =~= entries.skip(i + 1));
        if same_text(candidate.version.as_str(), version) && same_text(
            candidate.target_platform.as_str(),
            platform.as_str(),
        ) {
            return Some(candidate.last_updated);
        }
        i += 1;
    }
    assert(entries.skip(i as int).len() == 0);
    None
}

/// A property record.
pub open spec fn property_value(key: Seq<char>, value: Seq<char>) -> JsonValue {
    crate::json::empty_object().with("key"@, JsonValue::Text(key)).with(
        "value"@,
        JsonValue::Text(value),
    )
}

/// A property record.
fn property_json(key: &str, value: &str) -> (json: Json)
    ensures
        json@ == property_value(key@, value@),
{
    let mut json = Json::object();
    json.insert("key", Json::text(key));
    json.insert("value", Json::text(value));
    json
}

/// The property records that say what is kept of a version's properties.
pub open spec fn entry_properties(entry: SkeletonEntry) -> Seq<JsonValue> {
    let channel = if entry.prerelease {
        seq![property_value(prerelease_key(), "true"@)]
    } else {
        Seq::empty()
    };
    match entry.engine {
        Some(engine) => channel.push(property_value(engine_key(), engine)),
        None => channel,
    }
}

/// A file record.
pub open spec fn file_value(root: Seq<char>, asset_type: Seq<char>) -> JsonValue {
    crate::json::empty_object().with("assetType"@, JsonValue::Text(asset_type)).with(
        "source"@,
        JsonValue::Text(crate::response::asset_source(root, asset_type)),
    )
}

/// A file record.
fn file_json(root: &str, asset_type: &str) -> (json: Json)
    ensures
        json@ == file_value(root@, asset_type@),
{
    let mut source = root.to_string();
    source.append("/");
    source.append(encode(asset_type).as_str());
    let mut json = Json::object();
    json.insert("assetType", Json::text(asset_type));
    json.insert("source", Json::Text(source));
    json
}

/// The files that every built version record lists.
pub open spec fn built_files(root: Seq<char>) -> Seq<JsonValue> {
    seq![
        file_value(root, "Microsoft.VisualStudio.Services.VSIXPackage"@),
        file_value(root, "Microsoft.VisualStudio.Code.Manifest"@),
        file_value(root, "Microsoft.VisualStudio.Services.Content.Details"@),
        file_value(root, "Microsoft.VisualStudio.Services.Icons.Default"@),
    ]
}

/// The version record of a version of a history, without asset references.
pub open spec fn bare_version(entry: SkeletonEntry) -> JsonValue {
    let named = crate::json::empty_object().with("version"@, JsonValue::Text(entry.version)).with(
        "properties"@,
        JsonValue::List(entry_properties(entry)),
    );
    let placed = if entry.target_platform != crate::coordinate::default_platform() {
        named.with("targetPlatform"@, JsonValue::Text(entry.target_platform))
    } else {
        named
    };
    match entry.last_updated {
        Some((seconds, nanos)) => placed.with(
            "lastUpdated"@,
            JsonValue::Text(crate::time::instant_text(seconds, nanos)),
        ),
        None => placed,
    }
}

/// The version record of a version of a history, with the asset references that `flags` ask for.
pub open spec fn built_version(entry: SkeletonEntry, root: Seq<char>, flags: u32) -> JsonValue {
    let bare = bare_version(entry);
    let referring = if flags & GALLERY_INCLUDE_ASSET_URI_FLAG != 0 {
        bare.with("assetUri"@, JsonValue::Text(root)).with("fallbackAssetUri"@, JsonValue::Text(root))
    } else {
        bare
    };
    if flags & GALLERY_INCLUDE_FILES_FLAG != 0 {
        referring.with("files"@, JsonValue::List(built_files(root)))
    } else {
        referring
    }
}

/// The version record of a version of a history, with the asset references that `flags` ask for.
/// A date of a four-digit year is read back from it.
pub fn synthesize_gallery_version(
    version: &GallerySkeletonVersion,
    asset_base: &str,
    flags: u32,
) -> (record: Json)
    ensures
        record@ == built_version(version@, asset_base@, flags),
        match version@.last_updated {
            Some((seconds, nanos)) => crate::time::four_digit_year(seconds)
                ==> crate::response::version_date(record@) == version@.last_updated,
            None => crate::response::version_date(record@) is None,
        },
{
    let mut properties: Vec<Json> = Vec::new();
    if version.prerelease {
        properties.push(property_json("Microsoft.VisualStudio.Code.PreRelease", "true"));
    }
    if let Some(engine) = &version.engine {
        properties.push(property_json("Microsoft.VisualStudio.Code.Engine", engine.as_str()));
    }
    assert(crate::json::json_views(properties@) =~= entry_properties(version@));
    let mut record = Json::object();
    record.insert("version", Json::text(version.version.as_str()));
    record.insert("properties", Json::list(properties));
    if !same_text(version.target_platform.as_str(), "universal") {
        record.insert("targetPlatform", Json::text(version.target_platform.as_str()));
    }
    if let Some(last_updated) = &version.last_updated {
        record.insert("lastUpdated", Json::Text(last_updated.to_rfc3339()));
    }
    if flags & GALLERY_INCLUDE_ASSET_URI_FLAG != 0 {
        record.insert("assetUri", Json::text(asset_base));
        record.insert("fallbackAssetUri", Json::text(asset_base));
    }
    if flags & GALLERY_INCLUDE_FILES_FLAG != 0 {
        let mut files: Vec<Json> = Vec::new();
        files.push(file_json(asset_base, "Microsoft.VisualStudio.Services.VSIXPackage"));
        files.push(file_json(asset_base, "Microsoft.VisualStudio.Code.Manifest"));
        files.push(file_json(asset_base, "Microsoft.VisualStudio.Services.Content.Details"));
        files.push(file_json(asset_base, "Microsoft.VisualStudio.Services.Icons.Default"));
        assert(crate::json::json_views(files@) =~= built_files(asset_base@));
        record.insert("files", Json::list(files));
    }
    proof {
        lemma_built_member(version@, asset_base@, flags, "lastUpdated"@);
    }
    record
}

/// The members of a built version record that do not lead to assets are those of the bare one.
pub proof fn lemma_built_member(entry: SkeletonEntry, root: Seq<char>, flags: u32, key: Seq<char>)
    requires
        key == "version"@ || key == "targetPlatform"@ || key == "lastUpdated"@,
    ensures
        built_version(entry, root, flags).get(key) == bare_version(entry).get(key),
        bare_version(entry).get("version"@) == Some(JsonValue::Text(entry.version)),
        bare_version(entry).get("targetPlatform"@) == (if entry.target_platform
            != crate::coordinate::default_platform() {
            Some(JsonValue::Text(entry.target_platform))
        } else {
            None
        }),
        bare_version(entry).get("lastUpdated"@) == (match entry.last_updated {
            Some((seconds, nanos)) => Some(
                JsonValue::Text(crate::time::instant_text(seconds, nanos)),
            ),
            None => None,
        }),
{
    reveal_strlit("version");
    reveal_strlit("properties");
    reveal_strlit("targetPlatform");
    reveal_strlit("lastUpdated");
    reveal_strlit("assetUri");
    reveal_strlit("fallbackAssetUri");
    reveal_strlit("files");
    assert("version"@.len() == 7);
    assert("properties"@.len() == 10);
    assert("targetPlatform"@.len() == 14);
    assert("lastUpdated"@.len() == 11);
    assert("assetUri"@.len() == 8);
    assert("fallbackAssetUri"@.len() == 16);
    assert("files"@.len() == 5);
}

} // verus!
