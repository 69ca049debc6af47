//! Composed answers: one extension's record made of its latest versions in detail and its bounded
//! history, the page of such records, and the latest version that the age gate allows.

use vstd::prelude::*;
use vstd::hash_map::StringHashMap;
use vstd::hash_set::StringHashSet;

use crate::coordinate::{invalid_gallery_response, vscode_age_gate_version};
use crate::envelope::gallery_results_envelope;
use crate::error::GalleryError;
use crate::gate::{blocked_set, GateCandidate};
use crate::json::{Json, JsonValue};
use crate::query::{
    gallery_query_body, gallery_single_id_query, GalleryCriterion, GALLERY_LATEST_VERSION_ONLY_FLAG,
    GALLERY_LATEST_VERSION_QUERY_FLAGS, GALLERY_SKELETON_QUERY_FLAGS,
};
use crate::repository::RequestBaseUrl;
use crate::response::{
    gallery_extension_identity, gallery_last_updated, gallery_version_coordinate, rewrite_extension,
};
use crate::skeleton::{
    select_bounded_gallery_versions, synthesize_gallery_version, GallerySkeletonVersion,
    SkeletonEntry,
};
use crate::time::{arrange_newest_first, PublishTime};
use crate::urls::gallery_version_asset_base;

verus! {

/// The dates of version records.
pub open spec fn record_dates(versions: Seq<JsonValue>) -> Seq<Option<(i64, u32)>> {
    versions.map_values(|version: JsonValue| crate::response::version_date(version))
}

/// Version records, newest first.
pub open spec fn sorted_records(versions: Seq<JsonValue>) -> Seq<JsonValue> {
    crate::time::arranged(versions, crate::time::newest_first(record_dates(versions)))
}

/// Puts version records newest first, undated ones last, and those of one date in their order.
pub fn sort_gallery_versions_newest_first(versions: Vec<Json>) -> (sorted: Vec<Json>)
    ensures
        crate::json::json_views(sorted@) == sorted_records(crate::json::json_views(versions@)),
{
    let ghost records = crate::json::json_views(versions@);
    let mut dates: Vec<Option<PublishTime>> = Vec::new();
    let mut i: usize = 0;
    while i < versions.len()
        invariant
            i <= versions@.len(),
            dates@.len() == i,
            records == crate::json::json_views(versions@),
            forall|k: int|
                0 <= k < i ==> crate::time::time_view(#[trigger] dates@[k])
                    == crate::response::version_date(records[k]),
        decreases versions@.len() - i,
    {
        assert(records[i as int] == versions@[i as int]@);
        dates.push(gallery_last_updated(&versions[i]));
        i += 1;
    }
    proof {
        assert(crate::time::date_views(dates@) =~= record_dates(records));
        crate::time::newest_first_is_listed(record_dates(records));
    }
    let sorted = arrange_newest_first(versions, &dates);
    proof {
        let order = crate::time::newest_first(record_dates(records));
        assert forall|p: int| 0 <= p < order.len() implies #[trigger] crate::json::json_views(
            sorted@,
        )[p] == sorted_records(records)[p] by {
            assert(0 <= order[p] < versions@.len());
        }
        assert(crate::json::json_views(sorted@) =~= sorted_records(records));
    }
    sorted
}

/// The last record with a coordinate.
pub open spec fn detail_for(detailed: Seq<JsonValue>, coordinate: Seq<char>) -> Option<JsonValue>
    decreases detailed.len(),
{
    if detailed.len() == 0 {
        None
    } else if crate::response::version_coordinate(detailed.last()) == Some(coordinate) {
        Some(detailed.last())
    } else {
        detail_for(detailed.drop_last(), coordinate)
    }
}

/// Whether the record at `i` is the last with its coordinate.
pub open spec fn is_last(detailed: Seq<JsonValue>, i: int) -> bool {
    forall|j: int|
        i < j < detailed.len() ==> crate::response::version_coordinate(#[trigger] detailed[j])
            != crate::response::version_coordinate(detailed[i])
}

/// The record for the version at `i` of a history: the detailed one with its coordinate, where
/// there is one and no version before it has the same; else one built from the history.
pub open spec fn merged_at(
    entries: Seq<SkeletonEntry>,
    i: int,
    detailed: Seq<JsonValue>,
    base_url: Seq<char>,
    repo_key: Seq<char>,
    publisher: Seq<char>,
    name: Seq<char>,
    flags: u32,
) -> Option<JsonValue> {
    let entry = entries[i];
    let coordinate = crate::skeleton::entry_coordinate(entry);
    if detail_for(detailed, coordinate) is Some && !crate::skeleton::has_coordinate(
        entries.take(i),
        coordinate,
    ) {
        detail_for(detailed, coordinate)
    } else {
        match crate::urls::version_asset_root(
            base_url,
            repo_key,
            publisher,
            name,
            entry.version,
            entry.target_platform,
        ) {
            Ok(root) => Some(crate::skeleton::built_version(entry, root, flags)),
            Err(_) => None,
        }
    }
}

/// The first `n` detailed records, but for those whose coordinate the history has, and those that
/// a later record with their coordinate replaces.
pub open spec fn leftovers(
    detailed: Seq<JsonValue>,
    entries: Seq<SkeletonEntry>,
    n: nat,
) -> Seq<JsonValue>
    decreases n,
{
    if n == 0 {
        Seq::empty()
    } else {
        let before = leftovers(detailed, entries, (n - 1) as nat);
        let coordinate = crate::response::version_coordinate(detailed[n - 1]);
        if is_last(detailed, n - 1) && !(coordinate is Some && crate::skeleton::has_coordinate(
            entries,
            coordinate->Some_0,
        )) {
            before.push(detailed[n - 1])
        } else {
            before
        }
    }
}

/// Whether every version of a history has a record.
pub open spec fn all_merged(
    entries: Seq<SkeletonEntry>,
    detailed: Seq<JsonValue>,
    base_url: Seq<char>,
    repo_key: Seq<char>,
    publisher: Seq<char>,
    name: Seq<char>,
    flags: u32,
) -> bool {
    forall|i: int|
        0 <= i < entries.len() ==> (#[trigger] merged_at(
            entries,
            i,
            detailed,
            base_url,
            repo_key,
            publisher,
            name,
            flags,
        )) is Some
}

/// The records of a history, in its order.
pub open spec fn merged(
    entries: Seq<SkeletonEntry>,
    detailed: Seq<JsonValue>,
    base_url: Seq<char>,
    repo_key: Seq<char>,
    publisher: Seq<char>,
    name: Seq<char>,
    flags: u32,
) -> Seq<JsonValue> {
    Seq::new(
        entries.len(),
        |i: int|
            merged_at(
                entries,
                i,
                detailed,
                base_url,
                repo_key,
                publisher,
                name,
                flags,
            )->Some_0,
    )
}

/// The versions of a composed record: those of the history, in detail where there is detail, and
/// the detailed ones that the history does not have, newest first.
pub open spec fn composed_versions(
    entries: Seq<SkeletonEntry>,
    detailed: Seq<JsonValue>,
    base_url: Seq<char>,
    repo_key: Seq<char>,
    publisher: Seq<char>,
    name: Seq<char>,
    flags: u32,
) -> Option<Seq<JsonValue>> {
    if crate::gate::all_coordinates(detailed) && all_merged(
        entries,
        detailed,
        base_url,
        repo_key,
        publisher,
        name,
        flags,
    ) {
        Some(
            sorted_records(
                merged(entries, detailed, base_url, repo_key, publisher, name, flags) + leftovers(
                    detailed,
                    entries,
                    detailed.len(),
                ),
            ),
        )
    } else {
        None
    }
}

/// Detailed records by their coordinates. A record that was taken, or that a later one replaces,
/// is gone from its slot.
struct Details {
    slots: Vec<Option<Json>>,
    places: StringHashMap<usize>,
}

impl Details {
    /// Whether these are the detailed records without those whose coordinate `entries` has.
    spec fn holds(&self, detailed: Seq<JsonValue>, entries: Seq<SkeletonEntry>) -> bool {
        &&& self.slots@.len() == detailed.len()
        &&& crate::gate::all_coordinates(detailed)
        &&& forall|i: int|
            0 <= i < detailed.len() ==> crate::json::json_view_opt(#[trigger] self.slots@[i]) == (
            if is_last(detailed, i) && !crate::skeleton::has_coordinate(
                entries,
                crate::response::version_coordinate(detailed[i])->Some_0,
            ) {
                Some(detailed[i])
            } else {
                None
            })
        &&& forall|coordinate: Seq<char>| #[trigger]
            self.places@.contains_key(coordinate) <==> detail_for(detailed, coordinate) is Some
        &&& forall|coordinate: Seq<char>| #[trigger]
            self.places@.contains_key(coordinate) ==> {
                let at = self.places@[coordinate] as int;
                &&& 0 <= at < detailed.len()
                &&& is_last(detailed, at)
                &&& crate::response::version_coordinate(detailed[at]) == Some(coordinate)
            }
    }

    /// Takes the record with a coordinate, if it is still there.
    fn take(
        &mut self,
        coordinate: &str,
        Ghost(detailed): Ghost<Seq<JsonValue>>,
        Ghost(entries): Ghost<Seq<SkeletonEntry>>,
        Ghost(entry): Ghost<SkeletonEntry>,
    ) -> (taken: Option<Json>)
        requires
            old(self).holds(detailed, entries),
            crate::skeleton::entry_coordinate(entry) == coordinate@,
        ensures
            final(self).holds(detailed, entries.push(entry)),
            crate::json::json_view_opt(taken) == (if !crate::skeleton::has_coordinate(
                entries,
                coordinate@,
            ) {
                detail_for(detailed, coordinate@)
            } else {
                None
            }),
    {
        proof {
            crate::skeleton::lemma_has_coordinate(entries, entry);
        }
        match self.places.get(coordinate) {
            Some(at) => {
                let at: usize = *at;
                proof {
                    lemma_detail_at(detailed, at as int, coordinate@);
                }
                let mut slot: Option<Json> = None;
                core::mem::swap(&mut self.slots[at], &mut slot);
                proof {
                    assert forall|i: int| 0 <= i < detailed.len() implies
                        crate::json::json_view_opt(#[trigger] self.slots@[i]) == (if is_last(
                        detailed,
                        i,
                    ) && !crate::skeleton::has_coordinate(
                        entries.push(entry),
                        crate::response::version_coordinate(detailed[i])->Some_0,
                    ) {
                        Some(detailed[i])
                    } else {
                        None
                    }) by {
                        if i != at {
                            assert(self.slots@[i] == old(self).slots@[i]);
                            if is_last(detailed, i) && crate::response::version_coordinate(
                                detailed[i],
                            ) == Some(coordinate@) {
                                if i < at {
                                    assert(crate::response::version_coordinate(
                                        detailed[at as int],
                                    ) != crate::response::version_coordinate(detailed[i]));
                                } else {
                                    assert(crate::response::version_coordinate(detailed[i])
                                        != crate::response::version_coordinate(
                                        detailed[at as int],
                                    ));
                                }
                            }
                        }
                    }
                }
                slot
            },
            None => {
                proof {
                    assert forall|i: int| 0 <= i < detailed.len() implies
                        crate::json::json_view_opt(#[trigger] self.slots@[i]) == (if is_last(
                        detailed,
                        i,
                    ) && !crate::skeleton::has_coordinate(
                        entries.push(entry),
                        crate::response::version_coordinate(detailed[i])->Some_0,
                    ) {
                        Some(detailed[i])
                    } else {
                        None
                    }) by {
                        if crate::response::version_coordinate(detailed[i]) == Some(coordinate@) {
                            lemma_detail_some(detailed, i, coordinate@);
                        }
                    }
                }
                None
            },
        }
    }
}

/// The last record with a coordinate is the one found for it.
proof fn lemma_detail_at(detailed: Seq<JsonValue>, at: int, coordinate: Seq<char>)
    requires
        0 <= at < detailed.len(),
        is_last(detailed, at),
        crate::response::version_coordinate(detailed[at]) == Some(coordinate),
    ensures
        detail_for(detailed, coordinate) == Some(detailed[at]),
    decreases detailed.len(),
{
    if at < detailed.len() - 1 {
        let front = detailed.drop_last();
        assert(crate::response::version_coordinate(detailed[detailed.len() - 1])
            != crate::response::version_coordinate(detailed[at]));
        assert forall|j: int| at < j < front.len() implies crate::response::version_coordinate(
            #[trigger] front[j],
        ) != crate::response::version_coordinate(front[at]) by {
            assert(detailed[j] == front[j]);
        }
        lemma_detail_at(front, at, coordinate);
    }
}

/// Where a record has a coordinate, one is found for it, and it is the last.
proof fn lemma_detail_some(detailed: Seq<JsonValue>, at: int, coordinate: Seq<char>)
    requires
        0 <= at < detailed.len(),
        crate::response::version_coordinate(detailed[at]) == Some(coordinate),
    ensures
        detail_for(detailed, coordinate) is Some,
        exists|i: int|
            at <= i < detailed.len() && is_last(detailed, i) && #[trigger] detailed[i]
                == detail_for(detailed, coordinate)->Some_0
                && crate::response::version_coordinate(detailed[i]) == Some(coordinate),
    decreases detailed.len(),
{
    if crate::response::version_coordinate(detailed.last()) == Some(coordinate) {
        assert(is_last(detailed, detailed.len() - 1));
        assert(detailed[detailed.len() - 1] == detail_for(detailed, coordinate)->Some_0);
    } else {
        let front = detailed.drop_last();
        lemma_detail_some(front, at, coordinate);
        let i = choose|i: int|
            at <= i < front.len() && is_last(front, i) && #[trigger] front[i] == detail_for(
                front,
                coordinate,
            )->Some_0 && crate::response::version_coordinate(front[i]) == Some(coordinate);
        assert(detailed[i] == front[i]);
        assert forall|j: int| i < j < detailed.len() implies crate::response::version_coordinate(
            #[trigger] detailed[j],
        ) != crate::response::version_coordinate(detailed[i]) by {
            if j < front.len() {
                assert(front[j] == detailed[j]);
            }
        }
    }
}

/// Detailed records by their coordinates; an error where one has none.
fn index_details(detailed: Vec<Json>) -> (details: Result<Details, GalleryError>)
    ensures
        match details {
            Ok(details) => details.holds(crate::json::json_views(detailed@), Seq::empty()),
            Err(error) => error == GalleryError::InvalidResponse && !crate::gate::all_coordinates(
                crate::json::json_views(detailed@),
            ),
        },
{
    let ghost records = crate::json::json_views(detailed@);
    let mut details = Details { slots: Vec::new(), places: StringHashMap::new() };
    let mut at: usize = 0;
    for version in it: detailed
        invariant
            it.seq() == detailed@,
            records == crate::json::json_views(detailed@),
            at == it.index(),
            details.holds(records.take(at as int), Seq::empty()),
    {
        let ghost before = records.take(at as int);
        let ghost after = records.take(at + 1);
        proof {
            assert(records[at as int] == version@);
            assert(after =~= before.push(version@));
            assert(after.drop_last() =~= before);
        }
        let coordinate = match gallery_version_coordinate(&version) {
            Some(coordinate) => coordinate,
            None => {
                assert(crate::response::version_coordinate(records[at as int]) is None);
                return Err(invalid_gallery_response());
            },
        };
        let ghost slots_before = details.slots@;
        let ghost places_before = details.places@;
        let replaced: Option<usize> = match details.places.get(coordinate.as_str()) {
            Some(place) => Some(*place),
            None => None,
        };
        if let Some(place) = replaced {
            details.slots[place] = None;
        }
        let ghost coordinate_view = coordinate@;
        details.slots.push(Some(version));
        details.places.insert(coordinate, at);
        proof {
            lemma_indexed(
                before,
                version@,
                coordinate_view,
                slots_before,
                places_before,
                replaced,
                details,
            );
        }
        at = details.slots.len();
    }
    assert(records.take(at as int) =~= records);
    Ok(details)
}

/// One record more in the index.
proof fn lemma_indexed(
    before: Seq<JsonValue>,
    version: JsonValue,
    coordinate: Seq<char>,
    slots: Seq<Option<Json>>,
    places: Map<Seq<char>, usize>,
    replaced: Option<usize>,
    details: Details,
)
    requires
        slots.len() == before.len(),
        before.len() <= usize::MAX,
        crate::gate::all_coordinates(before),
        crate::response::version_coordinate(version) == Some(coordinate),
        forall|i: int|
            0 <= i < before.len() ==> crate::json::json_view_opt(#[trigger] slots[i]) == (
            if is_last(before, i) && !crate::skeleton::has_coordinate(
                Seq::empty(),
                crate::response::version_coordinate(before[i])->Some_0,
            ) {
                Some(before[i])
            } else {
                None
            }),
        forall|c: Seq<char>| #[trigger]
            places.contains_key(c) <==> detail_for(before, c) is Some,
        forall|c: Seq<char>| #[trigger]
            places.contains_key(c) ==> {
                let at = places[c] as int;
                &&& 0 <= at < before.len()
                &&& is_last(before, at)
                &&& crate::response::version_coordinate(before[at]) == Some(c)
            },
        match replaced {
            Some(place) => places.contains_key(coordinate) && place == places[coordinate],
            None => !places.contains_key(coordinate),
        },
        details.slots@.len() == before.len() + 1,
        crate::json::json_view_opt(details.slots@[before.len() as int]) == Some(version),
        forall|i: int|
            0 <= i < before.len() ==> #[trigger] details.slots@[i] == (if replaced is Some && i
                == replaced->Some_0 {
                None
            } else {
                slots[i]
            }),
        details.places@ == places.insert(coordinate, before.len() as usize),
    ensures
        details.holds(before.push(version), Seq::empty()),
{
    let after = before.push(version);
    assert(after.drop_last() =~= before);
    assert forall|i: int| 0 <= i < after.len() implies crate::response::version_coordinate(
        #[trigger] after[i],
    ) is Some by {
        if i < before.len() {
            assert(after[i] == before[i]);
        }
    }
    assert forall|i: int| 0 <= i < before.len() implies (is_last(after, i) <==> is_last(before, i)
        && crate::response::version_coordinate(before[i]) != Some(coordinate)) by {
        assert(after[i] == before[i]);
        if is_last(after, i) {
            assert forall|j: int| i < j < before.len() implies crate::response::version_coordinate(
                #[trigger] before[j],
            ) != crate::response::version_coordinate(before[i]) by {
                assert(after[j] == before[j]);
            }
            assert(crate::response::version_coordinate(after[before.len() as int])
                != crate::response::version_coordinate(after[i]));
        }
        if is_last(before, i) && crate::response::version_coordinate(before[i]) != Some(coordinate) {
            assert forall|j: int| i < j < after.len() implies crate::response::version_coordinate(
                #[trigger] after[j],
            ) != crate::response::version_coordinate(after[i]) by {
                if j < before.len() {
                    assert(after[j] == before[j]);
                }
            }
        }
    }
    assert(is_last(after, before.len() as int));
    assert forall|i: int| 0 <= i < after.len() implies crate::json::json_view_opt(
        #[trigger] details.slots@[i],
    ) == (if is_last(after, i) && !crate::skeleton::has_coordinate(
        Seq::empty(),
        crate::response::version_coordinate(after[i])->Some_0,
    ) {
        Some(after[i])
    } else {
        None
    }) by {
        if i < before.len() {
            assert(after[i] == before[i]);
            assert(crate::json::json_view_opt(slots[i]) == (if is_last(before, i) {
                Some(before[i])
            } else {
                None
            }));
            if crate::response::version_coordinate(before[i]) == Some(coordinate) && is_last(
                before,
                i,
            ) {
                lemma_detail_at(before, i, coordinate);
                assert(places.contains_key(coordinate));
                let place = places[coordinate] as int;
                if place < i {
                    assert(crate::response::version_coordinate(before[i])
                        != crate::response::version_coordinate(before[place]));
                }
                if i < place {
                    assert(crate::response::version_coordinate(before[place])
                        != crate::response::version_coordinate(before[i]));
                }
            }
        }
    }
    assert forall|c: Seq<char>| #[trigger] details.places@.contains_key(c) implies {
        let at = details.places@[c] as int;
        &&& 0 <= at < after.len()
        &&& is_last(after, at)
        &&& crate::response::version_coordinate(after[at]) == Some(c)
    } by {
        if c != coordinate {
            assert(places.contains_key(c));
            let at = places[c] as int;
            assert(after[at] == before[at]);
        }
    }
}

/// The records left of the detailed ones.
fn take_leftovers(
    details: Details,
    Ghost(detailed): Ghost<Seq<JsonValue>>,
    Ghost(entries): Ghost<Seq<SkeletonEntry>>,
) -> (left: Vec<Json>)
    requires
        details.holds(detailed, entries),
    ensures
        crate::json::json_views(left@) == leftovers(detailed, entries, detailed.len()),
{
    let slots = details.slots;
    let mut left: Vec<Json> = Vec::new();
    assert(crate::json::json_views(left@) =~= leftovers(detailed, entries, 0));
    for slot in it: slots
        invariant
            it.seq() == slots@,
            slots@.len() == detailed.len(),
            crate::gate::all_coordinates(detailed),
            forall|i: int|
                0 <= i < detailed.len() ==> crate::json::json_view_opt(#[trigger] slots@[i]) == (
                if is_last(detailed, i) && !crate::skeleton::has_coordinate(
                    entries,
                    crate::response::version_coordinate(detailed[i])->Some_0,
                ) {
                    Some(detailed[i])
                } else {
                    None
                }),
            crate::json::json_views(left@) == leftovers(detailed, entries, it.index() as nat),
    {
        let ghost at = it.index() as int;
        assert(slots@[at] == slot);
        assert(crate::response::version_coordinate(detailed[at]) is Some);
        if let Some(record) = slot {
            let ghost held = crate::json::json_views(left@);
            left.push(record);
            assert(crate::json::json_views(left@) =~= held.push(record@));
        }
    }
    left
}

/// The record for one version of a history.
fn merge_record(
    details: &mut Details,
    selected: &GallerySkeletonVersion,
    base_url: &RequestBaseUrl,
    repo_key: &str,
    publisher: &str,
    name: &str,
    flags: u32,
    Ghost(records): Ghost<Seq<JsonValue>>,
    Ghost(entries): Ghost<Seq<SkeletonEntry>>,
    Ghost(i): Ghost<int>,
) -> (record: Result<Json, GalleryError>)
    requires
        0 <= i < entries.len(),
        entries[i] == selected@,
        old(details).holds(records, entries.take(i)),
    ensures
        final(details).holds(records, entries.take(i + 1)),
        crate::response::json_or_error(record) == crate::response::or_invalid(
            merged_at(
                entries,
                i,
                records,
                base_url.0@,
                repo_key@,
                publisher@,
                name@,
                flags,
            ),
        ),
{
    let ghost entry = selected@;
    let ghost prefix = entries.take(i);
    proof {
        assert(entries.take(i + 1) =~= prefix.push(entry));
    }
    let coordinate = vscode_age_gate_version(
        selected.version.as_str(),
        Some(selected.target_platform.as_str()),
    );
    match details.take(coordinate.as_str(), Ghost(records), Ghost(prefix), Ghost(entry)) {
        Some(record) => Ok(record),
        None => {
            let root = gallery_version_asset_base(
                base_url,
                repo_key,
                publisher,
                name,
                selected.version.as_str(),
                selected.target_platform.as_str(),
            )?;
            Ok(synthesize_gallery_version(selected, root.as_str(), flags))
        },
    }
}

/// The versions of a composed record.
fn compose_versions(
    skeleton: &Vec<GallerySkeletonVersion>,
    detailed: Vec<Json>,
    base_url: &RequestBaseUrl,
    repo_key: &str,
    publisher: &str,
    name: &str,
    flags: u32,
) -> (versions: Result<Vec<Json>, GalleryError>)
    ensures
        ({
            let composed = composed_versions(
                crate::skeleton::skeleton_views(skeleton@),
                crate::json::json_views(detailed@),
                base_url.0@,
                repo_key@,
                publisher@,
                name@,
                flags,
            );
            match versions {
                Ok(versions) => composed == Some(crate::json::json_views(versions@)),
                Err(error) => composed is None && error == GalleryError::InvalidResponse,
            }
        }),
{
    let ghost entries = crate::skeleton::skeleton_views(skeleton@);
    let ghost records = crate::json::json_views(detailed@);
    let mut details = index_details(detailed)?;
    let mut versions: Vec<Json> = Vec::new();
    assert(entries.take(0) =~= Seq::<SkeletonEntry>::empty());
    let mut i: usize = 0;
    while i < skeleton.len()
        invariant
            i <= skeleton@.len(),
            entries == crate::skeleton::skeleton_views(skeleton@),
            records == crate::json::json_views(detailed@),
            details.holds(records, entries.take(i as int)),
            versions@.len() == i,
            forall|k: int|
                0 <= k < i ==> merged_at(
                    entries,
                    k,
                    records,
                    base_url.0@,
                    repo_key@,
                    publisher@,
                    name@,
                    flags,
                ) == Some((#[trigger] versions@[k])@),
        decreases skeleton@.len() - i,
    {
        assert(entries[i as int] == skeleton@[i as int]@);
        let record = match merge_record(
            &mut details,
            &skeleton[i],
            base_url,
            repo_key,
            publisher,
            name,
            flags,
            Ghost(records),
            Ghost(entries),
            Ghost(i as int),
        ) {
            Ok(record) => record,
            Err(error) => {
                assert(merged_at(
                    entries,
                    i as int,
                    records,
                    base_url.0@,
                    repo_key@,
                    publisher@,
                    name@,
                    flags,
                ) is None);
                return Err(error);
            },
        };
        versions.push(record);
        i += 1;
    }
    let ghost front = crate::json::json_views(versions@);
    proof {
        assert(entries.take(i as int) =~= entries);
        let wanted = merged(
            entries,
            records,
            base_url.0@,
            repo_key@,
            publisher@,
            name@,
            flags,
        );
        assert forall|k: int| 0 <= k < entries.len() implies (#[trigger] merged_at(
            entries,
            k,
            records,
            base_url.0@,
            repo_key@,
            publisher@,
            name@,
            flags,
        )) is Some by {
            assert(versions@[k]@ == versions@[k]@);
        }
        assert(front =~= wanted);
    }
    let mut left = take_leftovers(details, Ghost(records), Ghost(entries));
    let ghost back = crate::json::json_views(left@);
    versions.append(&mut left);
    assert(crate::json::json_views(versions@) =~= front + back);
    Ok(sort_gallery_versions_newest_first(versions))
}

/// The detailed version records of an extension record, none where it has no list of them.
pub open spec fn detailed_of(extension: JsonValue) -> Seq<JsonValue> {
    match extension.list_at("versions"@) {
        Some(versions) => versions,
        None => Seq::empty(),
    }
}

/// An extension record whose versions are composed with a bounded history.
pub open spec fn composed_extension(
    extension: JsonValue,
    entries: Seq<SkeletonEntry>,
    base_url: Seq<char>,
    repo_key: Seq<char>,
    flags: u32,
) -> Option<JsonValue> {
    match crate::response::identity_of(extension) {
        Some((publisher, name)) => match composed_versions(
            entries,
            detailed_of(extension),
            base_url,
            repo_key,
            publisher,
            name,
            flags,
        ) {
            Some(versions) => Some(extension.with("versions"@, JsonValue::List(versions))),
            None => None,
        },
        None => None,
    }
}

/// What is kept of a version history: the newest of each platform and channel, newest first.
pub open spec fn kept_history(history: Seq<SkeletonEntry>) -> Seq<SkeletonEntry> {
    crate::skeleton::bounded(crate::skeleton::sorted_entries(history))
}

/// Composes an extension record of its detailed versions and what is kept of its history: a
/// detailed record wins wherever both have the same coordinate, and none of them is lost.
pub fn compose_gallery_extension(
    extension: Json,
    history: Vec<GallerySkeletonVersion>,
    base_url: &RequestBaseUrl,
    repo_key: &str,
    flags: u32,
) -> (composed: Result<Json, GalleryError>)
    ensures
        crate::response::json_or_error(composed) == crate::response::or_invalid(
            composed_extension(
                extension@,
                kept_history(crate::skeleton::skeleton_views(history@)),
                base_url.0@,
                repo_key@,
                flags,
            ),
        ),
{
    let ghost whole = extension@;
    let mut extension = extension;
    let (publisher, name, _) = match gallery_extension_identity(&extension) {
        Some(identity) => identity,
        None => return Err(invalid_gallery_response()),
    };
    let skeleton = select_bounded_gallery_versions(history);
    let detailed: Vec<Json> = match extension.take_list("versions") {
        Some(detailed) => detailed,
        None => Vec::new(),
    };
    assert(crate::json::json_views(detailed@) =~= detailed_of(whole));
    let versions = compose_versions(
        &skeleton,
        detailed,
        base_url,
        repo_key,
        publisher.as_str(),
        name.as_str(),
        flags,
    )?;
    extension.insert("versions", Json::list(versions));
    proof {
        crate::response::lemma_set_twice(
            whole,
            "versions"@,
            JsonValue::Null,
            JsonValue::List(crate::json::json_views(versions@)),
        );
    }
    Ok(extension)
}

/// The query for one extension's latest versions in the detail that the client asked for.
pub fn detail_query(
    identity: &GalleryCriterion,
    qualifiers: &Vec<GalleryCriterion>,
    flags: u32,
) -> (body: Vec<u8>)
    ensures
        ({
            let query = crate::query::single_id_query(
                identity@,
                crate::query::criterion_views(qualifiers@),
                flags | GALLERY_LATEST_VERSION_ONLY_FLAG,
            );
            &&& body@ == crate::json::written_json(query)
            &&& crate::json::parsed_json(body@) == Some(query)
        }),
{
    gallery_query_body(
        gallery_single_id_query(identity, qualifiers, flags | GALLERY_LATEST_VERSION_ONLY_FLAG),
    )
}

/// The query for one extension's version history.
pub fn skeleton_query(
    identity: &GalleryCriterion,
    qualifiers: &Vec<GalleryCriterion>,
    flags: u32,
) -> (body: Vec<u8>)
    ensures
        ({
            let query = crate::query::single_id_query(
                identity@,
                crate::query::criterion_views(qualifiers@),
                flags,
            );
            &&& body@ == crate::json::written_json(query)
            &&& crate::json::parsed_json(body@) == Some(query)
        }),
{
    gallery_query_body(gallery_single_id_query(identity, qualifiers, flags))
}

/// The identity that the history of a detailed record is asked for under.
pub fn composition_subject(extension: &Json) -> (package: Result<String, GalleryError>)
    ensures
        match package {
            Ok(package) => crate::response::identity_of(extension@) is Some && package@
                == crate::gate::package_at(extension@),
            Err(error) => crate::response::identity_of(extension@) is None && error
                == GalleryError::InvalidResponse,
        },
{
    match gallery_extension_identity(extension) {
        Some((_, _, package)) => Ok(package),
        None => Err(invalid_gallery_response()),
    }
}

/// The documents among `composed`, in their order.
pub open spec fn present(composed: Seq<Option<Json>>) -> Seq<JsonValue>
    decreases composed.len(),
{
    if composed.len() == 0 {
        Seq::empty()
    } else {
        match composed.last() {
            Some(extension) => present(composed.drop_last()).push(extension@),
            None => present(composed.drop_last()),
        }
    }
}

/// The page of composed extension records, in the client's order, without those that the upstream
/// does not know.
pub fn compose_gallery_query(composed: Vec<Option<Json>>, result_metadata: Option<Json>) -> (page:
    Json)
    ensures
        page@ == crate::envelope::enveloped(
            present(composed@),
            crate::json::json_view_opt(result_metadata),
        ),
{
    let mut extensions: Vec<Json> = Vec::new();
    assert(crate::json::json_views(extensions@) =~= present(composed@.take(0)));
    for slot in it: composed
        invariant
            it.seq() == composed@,
            crate::json::json_views(extensions@) == present(composed@.take(it.index() as int)),
    {
        let ghost at = it.index() as int;
        proof {
            assert(composed@.take(at + 1).drop_last() =~= composed@.take(at));
            assert(composed@.take(at + 1).last() == slot);
        }
        if let Some(extension) = slot {
            let ghost held = crate::json::json_views(extensions@);
            extensions.push(extension);
            assert(crate::json::json_views(extensions@) =~= held.push(extension@));
        }
    }
    assert(composed@.take(composed@.len() as int) =~= composed@);
    gallery_results_envelope(extensions, result_metadata)
}

/// The versions of a history that are served once the age gate has withheld `blocked`: the first of
/// each platform that is left.
pub open spec fn served(entries: Seq<SkeletonEntry>, blocked: Seq<Seq<char>>) -> Seq<SkeletonEntry>
    decreases entries.len(),
{
    if entries.len() == 0 {
        Seq::empty()
    } else {
        let before = served(entries.drop_last(), blocked);
        let entry = entries.last();
        if blocked.contains(crate::skeleton::entry_coordinate(entry)) || has_platform(
            before,
            entry.target_platform,
        ) {
            before
        } else {
            before.push(entry)
        }
    }
}

/// Whether a history has a version of a platform.
pub open spec fn has_platform(entries: Seq<SkeletonEntry>, platform: Seq<char>) -> bool {
    exists|i: int| 0 <= i < entries.len() && (#[trigger] entries[i]).target_platform == platform
}

/// What is kept of a version history, and what the age gate is asked about it.
pub fn walk_back_candidates(history: Vec<GallerySkeletonVersion>) -> (asked: (
    Vec<GallerySkeletonVersion>,
    Vec<GateCandidate>,
))
    ensures
        crate::skeleton::skeleton_views(asked.0@) == kept_history(
            crate::skeleton::skeleton_views(history@),
        ),
        crate::gate::candidate_views(asked.1@) == kept_history(
            crate::skeleton::skeleton_views(history@),
        ).map_values(
            |entry: SkeletonEntry| (crate::skeleton::entry_coordinate(entry), entry.last_updated),
        ),
{
    let skeleton = select_bounded_gallery_versions(history);
    let mut candidates: Vec<GateCandidate> = Vec::new();
    let mut i: usize = 0;
    while i < skeleton.len()
        invariant
            i <= skeleton@.len(),
            candidates@.len() == i,
            forall|k: int|
                0 <= k < i ==> (#[trigger] candidates@[k])@ == (
                    crate::skeleton::entry_coordinate(skeleton@[k]@),
                    skeleton@[k]@.last_updated,
                ),
        decreases skeleton@.len() - i,
    {
        let version = &skeleton[i];
        candidates.push(
            GateCandidate {
                coordinate: vscode_age_gate_version(
                    version.version.as_str(),
                    Some(version.target_platform.as_str()),
                ),
                published_at: version.last_updated,
            },
        );
        i += 1;
    }
    assert(crate::gate::candidate_views(candidates@) =~= crate::skeleton::skeleton_views(
        skeleton@,
    ).map_values(
        |entry: SkeletonEntry| (crate::skeleton::entry_coordinate(entry), entry.last_updated),
    ));
    (skeleton, candidates)
}

/// Whether every version of a history may stand in a path.
pub open spec fn all_safe(entries: Seq<SkeletonEntry>) -> bool {
    forall|i: int| 0 <= i < entries.len() ==> crate::history::safe_entry(#[trigger] entries[i])
}

/// The records built of a history, with every asset reference.
pub open spec fn built_records(
    entries: Seq<SkeletonEntry>,
    base_url: Seq<char>,
    repo_key: Seq<char>,
    publisher: Seq<char>,
    name: Seq<char>,
) -> Seq<JsonValue> {
    Seq::new(
        entries.len(),
        |i: int|
            crate::skeleton::built_version(
                entries[i],
                crate::urls::asset_root(
                    base_url,
                    repo_key,
                    publisher,
                    name,
                    entries[i].version,
                    entries[i].target_platform,
                ),
                GALLERY_LATEST_VERSION_QUERY_FLAGS,
            ),
    )
}

/// The extension record with the newest version that the age gate allows for each platform, or
/// nothing where it allows none.
pub open spec fn walked_back(
    extension: JsonValue,
    entries: Seq<SkeletonEntry>,
    blocked: Seq<Seq<char>>,
    base_url: Seq<char>,
    repo_key: Seq<char>,
) -> Result<Option<JsonValue>, GalleryError> {
    match crate::response::identity_of(extension) {
        Some((publisher, name)) => {
            let kept = served(entries, blocked);
            if !all_safe(kept) {
                Err(GalleryError::InvalidResponse)
            } else if kept.len() == 0 {
                Ok(None)
            } else {
                match crate::response::rewritten_extension(
                    extension.with(
                        "versions"@,
                        JsonValue::List(
                            built_records(kept, base_url, repo_key, publisher, name),
                        ),
                    ),
                    base_url,
                    repo_key,
                ) {
                    Some(rewritten) => Ok(Some(rewritten)),
                    None => Err(GalleryError::InvalidResponse),
                }
            }
        },
        None => Err(GalleryError::InvalidResponse),
    }
}

/// What is served of a history is served of a longer one.
proof fn lemma_served_grows(entries: Seq<SkeletonEntry>, blocked: Seq<Seq<char>>, n: int)
    requires
        0 <= n <= entries.len(),
    ensures
        served(entries.take(n), blocked).is_prefix_of(served(entries, blocked)),
    decreases entries.len(),
{
    if n == entries.len() {
        assert(entries.take(n) =~= entries);
    } else {
        let front = entries.drop_last();
        lemma_served_grows(front, blocked, n);
        assert(front.take(n) =~= entries.take(n));
    }
}

/// One version more has one platform more.
proof fn lemma_has_platform(entries: Seq<SkeletonEntry>, entry: SkeletonEntry)
    ensures
        forall|platform: Seq<char>| #[trigger]
            has_platform(entries.push(entry), platform) <==> has_platform(entries, platform)
                || platform == entry.target_platform,
{
    let after = entries.push(entry);
    assert forall|platform: Seq<char>| #[trigger]
        has_platform(after, platform) <==> has_platform(entries, platform) || platform
            == entry.target_platform by {
        if has_platform(entries, platform) {
            let i = choose|i: int|
                0 <= i < entries.len() && (#[trigger] entries[i]).target_platform == platform;
            assert(after[i] == entries[i]);
        }
        if platform == entry.target_platform {
            assert(after[entries.len() as int] == entry);
        }
        if has_platform(after, platform) {
            let i = choose|i: int|
                0 <= i < after.len() && (#[trigger] after[i]).target_platform == platform;
            if i < entries.len() {
                assert(entries[i] == after[i]);
            }
        }
    }
}

/// The view of an optional document that may have been refused.
pub open spec fn found_or_error(found: Result<Option<Json>, GalleryError>) -> Result<
    Option<JsonValue>,
    GalleryError,
> {
    match found {
        Ok(json) => Ok(crate::json::json_view_opt(json)),
        Err(error) => Err(error),
    }
}

/// The records of the versions that are served once the age gate has withheld `blocked`.
fn serve_versions(
    skeleton: &Vec<GallerySkeletonVersion>,
    blocked: &Vec<String>,
    base_url: &RequestBaseUrl,
    repo_key: &str,
    publisher: &str,
    name: &str,
) -> (versions: Result<Vec<Json>, GalleryError>)
    ensures
        ({
            let kept = served(
                crate::skeleton::skeleton_views(skeleton@),
                crate::gate::verdict_view(blocked@),
            );
            match versions {
                Ok(versions) => {
                    &&& all_safe(kept)
                    &&& crate::json::json_views(versions@) == built_records(
                        kept,
                        base_url.0@,
                        repo_key@,
                        publisher@,
                        name@,
                    )
                },
                Err(error) => !all_safe(kept) && error == GalleryError::InvalidResponse,
            }
        }),
{
    let ghost entries = crate::skeleton::skeleton_views(skeleton@);
    let ghost withheld = crate::gate::verdict_view(blocked@);
    let set = blocked_set(blocked);
    let mut platforms = StringHashSet::new();
    let mut versions: Vec<Json> = Vec::new();
    assert(crate::json::json_views(versions@) =~= built_records(
        served(entries.take(0), withheld),
        base_url.0@,
        repo_key@,
        publisher@,
        name@,
    ));
    let mut i: usize = 0;
    while i < skeleton.len()
        invariant
            i <= skeleton@.len(),
            entries == crate::skeleton::skeleton_views(skeleton@),
            withheld == crate::gate::verdict_view(blocked@),
            forall|coordinate: Seq<char>| #[trigger]
                set@.contains(coordinate) <==> withheld.contains(coordinate),
            forall|platform: Seq<char>| #[trigger]
                platforms@.contains(platform) <==> has_platform(
                    served(entries.take(i as int), withheld),
                    platform,
                ),
            all_safe(served(entries.take(i as int), withheld)),
            crate::json::json_views(versions@) == built_records(
                served(entries.take(i as int), withheld),
                base_url.0@,
                repo_key@,
                publisher@,
                name@,
            ),
        decreases skeleton@.len() - i,
    {
        let version = &skeleton[i];
        let ghost before = served(entries.take(i as int), withheld);
        let ghost entry = version@;
        proof {
            assert(entries[i as int] == entry);
            assert(entries.take(i + 1).drop_last() =~= entries.take(i as int));
            assert(entries.take(i + 1).last() == entry);
            lemma_has_platform(before, entry);
            assert(platforms@.contains(entry.target_platform) <==> has_platform(
                before,
                entry.target_platform,
            ));
        }
        let coordinate = vscode_age_gate_version(
            version.version.as_str(),
            Some(version.target_platform.as_str()),
        );
        if !set.contains(coordinate.as_str()) {
            if platforms.insert(version.target_platform.as_str().to_string()) {
                let root = match gallery_version_asset_base(
                    base_url,
                    repo_key,
                    publisher,
                    name,
                    version.version.as_str(),
                    version.target_platform.as_str(),
                ) {
                    Ok(root) => root,
                    Err(error) => {
                        proof {
                            let kept = served(entries, withheld);
                            lemma_served_grows(entries, withheld, i + 1);
                            assert(served(entries.take(i + 1), withheld) == before.push(entry));
                            assert(before.push(entry)[before.len() as int] == entry);
                            assert(kept[before.len() as int] == entry);
                            assert(!crate::history::safe_entry(kept[before.len() as int]));
                        }
                        return Err(error);
                    },
                };
                let record = synthesize_gallery_version(
                    version,
                    root.as_str(),
                    GALLERY_LATEST_VERSION_QUERY_FLAGS,
                );
                let ghost held = crate::json::json_views(versions@);
                versions.push(record);
                proof {
                    assert(crate::json::json_views(versions@) =~= held.push(record@));
                    assert(crate::json::json_views(versions@) =~= built_records(
                        before.push(entry),
                        base_url.0@,
                        repo_key@,
                        publisher@,
                        name@,
                    ));
                }
            } else {
                assert(platforms@ =~= platforms@.insert(entry.target_platform));
            }
        }
        i += 1;
    }
    assert(entries.take(i as int) =~= entries);
    Ok(versions)
}

/// Gives an extension record the newest version that the age gate allows for each platform, or says
/// that it allows none. `blocked` is what the age gate withholds of the bounded history.
pub fn gallery_latest_walk_back(
    extension: Json,
    skeleton: &Vec<GallerySkeletonVersion>,
    blocked: &Vec<String>,
    base_url: &RequestBaseUrl,
    repo_key: &str,
) -> (found: Result<Option<Json>, GalleryError>)
    ensures
        found_or_error(found) == walked_back(
            extension@,
            crate::skeleton::skeleton_views(skeleton@),
            crate::gate::verdict_view(blocked@),
            base_url.0@,
            repo_key@,
        ),
{
    let (publisher, name, _) = match gallery_extension_identity(&extension) {
        Some(identity) => identity,
        None => return Err(invalid_gallery_response()),
    };
    let versions = serve_versions(
        skeleton,
        blocked,
        base_url,
        repo_key,
        publisher.as_str(),
        name.as_str(),
    )?;
    assert(crate::json::json_views(versions@).len() == versions@.len());
    if versions.len() == 0 {
        return Ok(None);
    }
    let mut extension = extension;
    extension.insert("versions", Json::list(versions));
    match rewrite_extension(extension, base_url, repo_key) {
        Ok(rewritten) => Ok(Some(rewritten)),
        Err(error) => Err(error),
    }
}

/// What is served after the age gate: one version of each platform that has an allowed one, never a
/// withheld one, and nothing of the platform that is allowed and stands before it. Nothing is
/// served only where everything is withheld.
pub proof fn the_newest_allowed_version_is_served(
    entries: Seq<SkeletonEntry>,
    blocked: Seq<Seq<char>>,
)
    ensures
        forall|k: int|
            0 <= k < served(entries, blocked).len() ==> !blocked.contains(
                crate::skeleton::entry_coordinate(#[trigger] served(entries, blocked)[k]),
            ) && first_allowed(entries, blocked, served(entries, blocked)[k]),
        forall|k: int, l: int|
            0 <= k < l < served(entries, blocked).len() ==> (#[trigger] served(
                entries,
                blocked,
            )[k]).target_platform != (#[trigger] served(entries, blocked)[l]).target_platform,
        forall|i: int|
            0 <= i < entries.len() && !blocked.contains(
                crate::skeleton::entry_coordinate(#[trigger] entries[i]),
            ) ==> has_platform(served(entries, blocked), entries[i].target_platform),
        served(entries, blocked).len() == 0 <==> forall|i: int|
            0 <= i < entries.len() ==> blocked.contains(
                crate::skeleton::entry_coordinate(#[trigger] entries[i]),
            ),
    decreases entries.len(),
{
    if entries.len() > 0 {
        let front = entries.drop_last();
        let entry = entries.last();
        let before = served(front, blocked);
        let after = served(entries, blocked);
        the_newest_allowed_version_is_served(front, blocked);
        lemma_has_platform(before, entry);
        let taken = !blocked.contains(crate::skeleton::entry_coordinate(entry)) && !has_platform(
            before,
            entry.target_platform,
        );
        assert forall|k: int| 0 <= k < after.len() implies !blocked.contains(
            crate::skeleton::entry_coordinate(#[trigger] after[k]),
        ) && first_allowed(entries, blocked, after[k]) by {
            if k < before.len() {
                assert(after[k] == before[k]);
                assert(first_allowed(front, blocked, before[k]));
                let i = choose|i: int| #[trigger] is_first_allowed(front, blocked, before[k], i);
                assert(is_first_allowed(entries, blocked, before[k], i)) by {
                    assert(entries[i] == front[i]);
                    assert forall|j: int|
                        0 <= j < i && (#[trigger] entries[j]).target_platform
                            == before[k].target_platform implies blocked.contains(
                        crate::skeleton::entry_coordinate(entries[j]),
                    ) by {
                        assert(entries[j] == front[j]);
                    }
                }
            } else {
                let i = entries.len() - 1;
                assert(is_first_allowed(entries, blocked, after[k], i)) by {
                    assert forall|j: int|
                        0 <= j < i && (#[trigger] entries[j]).target_platform
                            == after[k].target_platform implies blocked.contains(
                        crate::skeleton::entry_coordinate(entries[j]),
                    ) by {
                        assert(entries[j] == front[j]);
                        if !blocked.contains(crate::skeleton::entry_coordinate(front[j])) {
                            assert(has_platform(before, front[j].target_platform));
                        }
                    }
                }
            }
        }
        assert forall|k: int, l: int| 0 <= k < l < after.len() implies (
        #[trigger] after[k]).target_platform != (#[trigger] after[l]).target_platform by {
            if l == before.len() {
                assert(before[k].target_platform != entry.target_platform);
            }
        }
        assert forall|i: int|
            0 <= i < entries.len() && !blocked.contains(
                crate::skeleton::entry_coordinate(#[trigger] entries[i]),
            ) implies has_platform(after, entries[i].target_platform) by {
            if i < front.len() {
                assert(front[i] == entries[i]);
                assert(has_platform(before, front[i].target_platform));
                if taken {
                    assert(after == before.push(entry));
                }
            } else if taken {
                assert(after == before.push(entry));
            }
        }
        if after.len() == 0 {
            assert forall|i: int| 0 <= i < entries.len() implies blocked.contains(
                crate::skeleton::entry_coordinate(#[trigger] entries[i]),
            ) by {
                if !blocked.contains(crate::skeleton::entry_coordinate(entries[i])) {
                    assert(has_platform(after, entries[i].target_platform));
                }
            }
        } else {
            assert(first_allowed(entries, blocked, after[0]));
            let i = choose|i: int| #[trigger] is_first_allowed(entries, blocked, after[0], i);
            assert(!blocked.contains(crate::skeleton::entry_coordinate(entries[i])));
        }
    }
}

/// Whether the version stands at `i`, and every version of its platform before it is withheld.
pub open spec fn is_first_allowed(
    entries: Seq<SkeletonEntry>,
    blocked: Seq<Seq<char>>,
    entry: SkeletonEntry,
    i: int,
) -> bool {
    &&& 0 <= i < entries.len()
    &&& entries[i] == entry
    &&& forall|j: int|
        0 <= j < i && (#[trigger] entries[j]).target_platform == entry.target_platform
            ==> blocked.contains(crate::skeleton::entry_coordinate(entries[j]))
}

/// Whether every version of its platform before a version is withheld.
pub open spec fn first_allowed(
    entries: Seq<SkeletonEntry>,
    blocked: Seq<Seq<char>>,
    entry: SkeletonEntry,
) -> bool {
    exists|i: int| #[trigger] is_first_allowed(entries, blocked, entry, i)
}

/// Whether no record is listed behind one that it should be ahead of.
pub open spec fn newest_records_first(versions: Seq<JsonValue>) -> bool {
    forall|i: int, j: int|
        0 <= i < j < versions.len() ==> !crate::time::ahead(
            crate::response::version_date(#[trigger] versions[j]),
            crate::response::version_date(#[trigger] versions[i]),
        )
}

/// Sorted records are all there, newest first.
pub proof fn sorted_records_are_newest_first(versions: Seq<JsonValue>)
    ensures
        newest_records_first(sorted_records(versions)),
        sorted_records(versions).len() == versions.len(),
        forall|i: int|
            0 <= i < versions.len() ==> sorted_records(versions).contains(#[trigger] versions[i]),
        forall|i: int|
            0 <= i < versions.len() ==> versions.contains(#[trigger] sorted_records(versions)[i]),
{
    let dates = record_dates(versions);
    let order = crate::time::newest_first(dates);
    let sorted = sorted_records(versions);
    crate::time::newest_first_is_listed(dates);
    crate::time::lemma_listed_all(dates, order);
    assert forall|i: int, j: int| 0 <= i < j < sorted.len() implies !crate::time::ahead(
        crate::response::version_date(#[trigger] sorted[j]),
        crate::response::version_date(#[trigger] sorted[i]),
    ) by {
        assert(crate::time::precedes(dates, order[i], order[j]));
        assert(0 <= order[i] < dates.len());
        assert(0 <= order[j] < dates.len());
    }
    assert forall|i: int| 0 <= i < versions.len() implies sorted.contains(
        #[trigger] versions[i],
    ) by {
        assert(order.contains(i));
        let p = choose|p: int| 0 <= p < order.len() && order[p] == i;
        assert(sorted[p] == versions[i]);
    }
    assert forall|i: int| 0 <= i < versions.len() implies versions.contains(
        #[trigger] sorted[i],
    ) by {
        assert(0 <= order[i] < dates.len());
        assert(versions[order[i]] == sorted[i]);
    }
}

proof fn lemma_leftover(detailed: Seq<JsonValue>, entries: Seq<SkeletonEntry>, n: nat, i: int)
    requires
        0 <= i < n <= detailed.len(),
        is_last(detailed, i),
        crate::response::version_coordinate(detailed[i]) is Some,
        !crate::skeleton::has_coordinate(
            entries,
            crate::response::version_coordinate(detailed[i])->Some_0,
        ),
    ensures
        leftovers(detailed, entries, n).contains(detailed[i]),
    decreases n,
{
    let all = leftovers(detailed, entries, n);
    let before = leftovers(detailed, entries, (n - 1) as nat);
    if i == n - 1 {
        assert(all[before.len() as int] == detailed[i]);
    } else {
        lemma_leftover(detailed, entries, (n - 1) as nat, i);
        let k = choose|k: int| 0 <= k < before.len() && before[k] == detailed[i];
        assert(all[k] == detailed[i]);
    }
}

/// Where a history has a coordinate, there is a first version with it.
proof fn lemma_first_with(entries: Seq<SkeletonEntry>, coordinate: Seq<char>) -> (at: int)
    requires
        crate::skeleton::has_coordinate(entries, coordinate),
    ensures
        0 <= at < entries.len(),
        crate::skeleton::entry_coordinate(entries[at]) == coordinate,
        !crate::skeleton::has_coordinate(entries.take(at), coordinate),
    decreases entries.len(),
{
    let front = entries.drop_last();
    if crate::skeleton::has_coordinate(front, coordinate) {
        let at = lemma_first_with(front, coordinate);
        assert(front.take(at) =~= entries.take(at));
        at
    } else {
        assert(entries.take(entries.len() - 1) =~= front);
        let i = choose|i: int|
            0 <= i < entries.len() && crate::skeleton::entry_coordinate(#[trigger] entries[i])
                == coordinate;
        if i < front.len() {
            assert(front[i] == entries[i]);
        }
        entries.len() - 1
    }
}

/// Composing loses no version: every detailed one is there, as the last record with its
/// coordinate; every one of the history is there; and all of them are newest first.
pub proof fn composing_loses_no_version(
    entries: Seq<SkeletonEntry>,
    detailed: Seq<JsonValue>,
    base_url: Seq<char>,
    repo_key: Seq<char>,
    publisher: Seq<char>,
    name: Seq<char>,
    flags: u32,
)
    requires
        composed_versions(entries, detailed, base_url, repo_key, publisher, name, flags) is Some,
    ensures
        ({
            let composed = composed_versions(
                entries,
                detailed,
                base_url,
                repo_key,
                publisher,
                name,
                flags,
            )->Some_0;
            &&& newest_records_first(composed)
            &&& forall|i: int|
                0 <= i < detailed.len() ==> composed.contains(
                    detail_for(
                        detailed,
                        crate::response::version_coordinate(#[trigger] detailed[i])->Some_0,
                    )->Some_0,
                )
            &&& forall|i: int|
                0 <= i < entries.len() ==> composed.contains(
                    #[trigger] merged_at(
                        entries,
                        i,
                        detailed,
                        base_url,
                        repo_key,
                        publisher,
                        name,
                        flags,
                    )->Some_0,
                )
        }),
{
    let front = merged(entries, detailed, base_url, repo_key, publisher, name, flags);
    let back = leftovers(detailed, entries, detailed.len());
    let all = front + back;
    let composed = sorted_records(all);
    sorted_records_are_newest_first(all);
    assert forall|i: int| 0 <= i < entries.len() implies composed.contains(
        #[trigger] merged_at(
            entries,
            i,
            detailed,
            base_url,
            repo_key,
            publisher,
            name,
            flags,
        )->Some_0,
    ) by {
        assert(all[i] == front[i]);
        assert(composed.contains(all[i]));
    }
    assert forall|i: int| 0 <= i < detailed.len() implies composed.contains(
        detail_for(
            detailed,
            crate::response::version_coordinate(#[trigger] detailed[i])->Some_0,
        )->Some_0,
    ) by {
        let coordinate = crate::response::version_coordinate(detailed[i])->Some_0;
        lemma_detail_some(detailed, i, coordinate);
        let last = choose|k: int|
            i <= k < detailed.len() && is_last(detailed, k) && #[trigger] detailed[k]
                == detail_for(detailed, coordinate)->Some_0
                && crate::response::version_coordinate(detailed[k]) == Some(coordinate);
        if crate::skeleton::has_coordinate(entries, coordinate) {
            let at = lemma_first_with(entries, coordinate);
            assert(merged_at(
                entries,
                at,
                detailed,
                base_url,
                repo_key,
                publisher,
                name,
                flags,
            ) == detail_for(detailed, coordinate));
        } else {
            lemma_leftover(detailed, entries, detailed.len(), last);
            let k = choose|k: int| 0 <= k < back.len() && back[k] == detailed[last];
            assert(all[front.len() + k] == detailed[last]);
            assert(composed.contains(all[front.len() + k]));
        }
    }
}

/// A version of the history has a record with its coordinate, whether it is detailed or built.
pub proof fn merged_records_keep_their_coordinate(
    entries: Seq<SkeletonEntry>,
    i: int,
    detailed: Seq<JsonValue>,
    base_url: Seq<char>,
    repo_key: Seq<char>,
    publisher: Seq<char>,
    name: Seq<char>,
    flags: u32,
)
    requires
        0 <= i < entries.len(),
        crate::history::safe_entry(entries[i]),
    ensures
        ({
            let record = merged_at(
                entries,
                i,
                detailed,
                base_url,
                repo_key,
                publisher,
                name,
                flags,
            );
            &&& record is Some
            &&& crate::response::version_coordinate(record->Some_0) == Some(
                crate::skeleton::entry_coordinate(entries[i]),
            )
        }),
{
    let entry = entries[i];
    let root = crate::urls::asset_root(
        base_url,
        repo_key,
        publisher,
        name,
        entry.version,
        entry.target_platform,
    );
    crate::history::built_versions_keep_their_coordinate(entry, root, flags);
    lemma_detail_coordinate(detailed, crate::skeleton::entry_coordinate(entry));
}

proof fn lemma_detail_coordinate(detailed: Seq<JsonValue>, coordinate: Seq<char>)
    ensures
        match detail_for(detailed, coordinate) {
            Some(record) => crate::response::version_coordinate(record) == Some(coordinate),
            None => true,
        },
    decreases detailed.len(),
{
    if detailed.len() > 0 && crate::response::version_coordinate(detailed.last()) != Some(
        coordinate,
    ) {
        lemma_detail_coordinate(detailed.drop_last(), coordinate);
    }
}

/// What is served after the age gate is served as it was built: the rewrite finds nothing in it
/// that leads elsewhere, and the rest of the extension record is as the upstream sent it.
pub proof fn walked_back_records_are_served_as_built(
    extension: JsonValue,
    entries: Seq<SkeletonEntry>,
    blocked: Seq<Seq<char>>,
    base_url: Seq<char>,
    repo_key: Seq<char>,
)
    requires
        crate::response::identity_of(extension) is Some,
        all_safe(served(entries, blocked)),
        served(entries, blocked).len() > 0,
    ensures
        ({
            let (publisher, name) = crate::response::identity_of(extension)->Some_0;
            walked_back(extension, entries, blocked, base_url, repo_key) == Ok::<
                Option<JsonValue>,
                GalleryError,
            >(
                Some(
                    extension.with(
                        "versions"@,
                        JsonValue::List(
                            built_records(
                                served(entries, blocked),
                                base_url,
                                repo_key,
                                publisher,
                                name,
                            ),
                        ),
                    ),
                ),
            )
        }),
{
    reveal_strlit("versions");
    reveal_strlit("publisher");
    reveal_strlit("extensionName");
    assert("versions"@.len() == 8);
    assert("publisher"@.len() == 9);
    assert("extensionName"@.len() == 13);
    let (publisher, name) = crate::response::identity_of(extension)->Some_0;
    let kept = served(entries, blocked);
    let records = built_records(kept, base_url, repo_key, publisher, name);
    let record = extension.with("versions"@, JsonValue::List(records));
    let f = crate::response::version_rewrite(base_url, repo_key, publisher, name);
    assert(record.get("publisher"@) == extension.get("publisher"@));
    assert(record.get("extensionName"@) == extension.get("extensionName"@));
    assert(crate::response::identity_of(record) == Some((publisher, name)));
    assert(record.list_at("versions"@) == Some(records));
    assert forall|i: int| 0 <= i < records.len() implies #[trigger] f(records[i]) == Some(
        records[i],
    ) by {
        assert(crate::history::safe_entry(kept[i]));
        crate::history::built_versions_need_no_rewrite(
            kept[i],
            GALLERY_LATEST_VERSION_QUERY_FLAGS,
            base_url,
            repo_key,
            publisher,
            name,
        );
    }
    assert(crate::response::map_all(records, f)->Some_0 =~= records);
    crate::response::lemma_set_twice(
        extension,
        "versions"@,
        JsonValue::List(records),
        JsonValue::List(records),
    );
}

} // verus!
