//! The age gate over gallery documents: what it is asked about each extension, and what is left
//! of a document once it has answered.

use vstd::prelude::*;
use vstd::hash_set::StringHashSet;

use crate::coordinate::invalid_gallery_response;
use crate::envelope::reconcile_gallery_result_count;
use crate::error::GalleryError;
use crate::json::{Json, JsonValue};
use crate::response::{
    gallery_extension_identity, gallery_last_updated, gallery_version_coordinate,
};
use crate::time::PublishTime;

verus! {

/// One version that the age gate is asked about.
#[derive(Debug)]
pub struct GateCandidate {
    pub coordinate: String,
    pub published_at: Option<PublishTime>,
}

impl View for GateCandidate {
    type V = (Seq<char>, Option<(i64, u32)>);

    open spec fn view(&self) -> (Seq<char>, Option<(i64, u32)>) {
        (self.coordinate@, crate::time::time_view(self.published_at))
    }
}

/// The views of candidates.
pub open spec fn candidate_views(candidates: Seq<GateCandidate>) -> Seq<
    (Seq<char>, Option<(i64, u32)>),
> {
    candidates.map_values(|candidate: GateCandidate| candidate@)
}

/// What the age gate is asked about one extension.
#[derive(Debug)]
pub struct GateBatch {
    pub package: String,
    pub candidates: Vec<GateCandidate>,
}

/// Whether every version record of a list has a coordinate.
pub open spec fn all_coordinates(versions: Seq<JsonValue>) -> bool {
    forall|i: int|
        0 <= i < versions.len() ==> crate::response::version_coordinate(
            #[trigger] versions[i],
        ) is Some
}

/// Whether the age gate can be asked about an extension record: it has an identity, versions, and a
/// coordinate for each.
pub open spec fn gateable(extension: JsonValue) -> bool {
    match extension.list_at("versions"@) {
        Some(versions) => crate::response::identity_of(extension) is Some && all_coordinates(
            versions,
        ),
        None => false,
    }
}

/// The coordinates and dates of version records.
pub open spec fn candidates_of(versions: Seq<JsonValue>) -> Seq<(Seq<char>, Option<(i64, u32)>)> {
    Seq::new(
        versions.len(),
        |i: int|
            (
                crate::response::version_coordinate(versions[i])->Some_0,
                crate::response::version_date(versions[i]),
            ),
    )
}

/// The identity that the age gate knows an extension record by.
pub open spec fn package_at(extension: JsonValue) -> Seq<char> {
    let (publisher, name) = crate::response::identity_of(extension)->Some_0;
    crate::coordinate::package_of(publisher, name)
}

/// What the age gate is asked about an extension record.
pub fn gate_batch(extension: &Json) -> (batch: Result<GateBatch, GalleryError>)
    ensures
        match batch {
            Ok(batch) => {
                &&& gateable(extension@)
                &&& batch.package@ == package_at(extension@)
                &&& candidate_views(batch.candidates@) == candidates_of(
                    extension@.list_at("versions"@)->Some_0,
                )
            },
            Err(error) => !gateable(extension@) && error == GalleryError::InvalidResponse,
        },
{
    let (_, _, package) = match gallery_extension_identity(extension) {
        Some(identity) => identity,
        None => return Err(invalid_gallery_response()),
    };
    let versions = match extension.get_list("versions") {
        Some(versions) => versions,
        None => return Err(invalid_gallery_response()),
    };
    let ghost records = crate::json::json_views(versions@);
    let mut candidates: Vec<GateCandidate> = Vec::new();
    let mut i: usize = 0;
    while i < versions.len()
        invariant
            i <= versions@.len(),
            records == crate::json::json_views(versions@),
            extension@.list_at("versions"@) == Some(records),
            candidates@.len() == i,
            forall|k: int|
                0 <= k < i ==> crate::response::version_coordinate(#[trigger] records[k]) is Some,
            forall|k: int|
                0 <= k < i ==> (#[trigger] candidates@[k])@ == candidates_of(records)[k],
        decreases versions@.len() - i,
    {
        assert(records[i as int] == versions@[i as int]@);
        let coordinate = match gallery_version_coordinate(&versions[i]) {
            Some(coordinate) => coordinate,
            None => return Err(invalid_gallery_response()),
        };
        candidates.push(
            GateCandidate { coordinate, published_at: gallery_last_updated(&versions[i]) },
        );
        i += 1;
    }
    assert(candidate_views(candidates@) =~= candidates_of(records));
    Ok(GateBatch { package, candidates })
}

/// The extension record at place `k`, counted over all result records, or nothing where there are
/// not that many; an error where a result record before it has no list of extensions.
pub open spec fn extension_at(results: Seq<JsonValue>, k: nat) -> Result<
    Option<JsonValue>,
    GalleryError,
>
    decreases results.len(),
{
    if results.len() == 0 {
        Ok(None)
    } else {
        match results[0].list_at("extensions"@) {
            Some(extensions) => if k < extensions.len() {
                Ok(Some(extensions[k as int]))
            } else {
                extension_at(results.drop_first(), (k - extensions.len()) as nat)
            },
            None => Err(GalleryError::InvalidResponse),
        }
    }
}

/// What the age gate is asked next, once it has answered for the first `decided` extension records
/// of the document, or nothing where it has answered for all of them.
pub fn next_gate_batch(response: &Json, decided: usize) -> (batch: Result<
    Option<GateBatch>,
    GalleryError,
>)
    ensures
        match response@.list_at("results"@) {
            None => batch == Err::<Option<GateBatch>, GalleryError>(GalleryError::InvalidResponse),
            Some(results) => match extension_at(results, decided as nat) {
                Err(error) => batch == Err::<Option<GateBatch>, GalleryError>(error),
                Ok(None) => batch == Ok::<Option<GateBatch>, GalleryError>(None),
                Ok(Some(extension)) => match batch {
                    Ok(Some(batch)) => {
                        &&& gateable(extension)
                        &&& batch.package@ == package_at(extension)
                        &&& candidate_views(batch.candidates@) == candidates_of(
                            extension.list_at("versions"@)->Some_0,
                        )
                    },
                    Ok(None) => false,
                    Err(error) => !gateable(extension) && error == GalleryError::InvalidResponse,
                },
            },
        },
{
    let results = match response.get_list("results") {
        Some(results) => results,
        None => return Err(invalid_gallery_response()),
    };
    let ghost records = crate::json::json_views(results@);
    assert(records.skip(0) =~= records);
    let mut left: usize = decided;
    let mut i: usize = 0;
    while i < results.len()
        invariant
            i <= results@.len(),
            records == crate::json::json_views(results@),
            response@.list_at("results"@) == Some(records),
            extension_at(records.skip(i as int), left as nat) == extension_at(
                records,
                decided as nat,
            ),
        decreases results@.len() - i,
    {
        assert(records.skip(i as int)[0] == results@[i as int]@);
        assert(records.skip(i as int).drop_first() =~= records.skip(i + 1));
        let extensions = match results[i].get_list("extensions") {
            Some(extensions) => extensions,
            None => return Err(invalid_gallery_response()),
        };
        if left < extensions.len() {
            let ghost inner = crate::json::json_views(extensions@);
            assert(inner[left as int] == extensions@[left as int]@);
            return match gate_batch(&extensions[left]) {
                Ok(batch) => Ok(Some(batch)),
                Err(error) => Err(error),
            };
        }
        left = left - extensions.len();
        i += 1;
    }
    assert(records.skip(i as int).len() == 0);
    Ok(None)
}

/// The coordinates that one answer of the age gate withholds, as texts.
pub open spec fn verdict_view(blocked: Seq<String>) -> Seq<Seq<char>> {
    blocked.map_values(|coordinate: String| coordinate@)
}

/// The views of verdicts.
pub open spec fn verdict_views(verdicts: Seq<Vec<String>>) -> Seq<Seq<Seq<char>>> {
    verdicts.map_values(|blocked: Vec<String>| verdict_view(blocked@))
}

/// The version records that a verdict does not withhold.
pub open spec fn allowed(versions: Seq<JsonValue>, blocked: Seq<Seq<char>>) -> Seq<JsonValue>
    decreases versions.len(),
{
    if versions.len() == 0 {
        Seq::empty()
    } else {
        let before = allowed(versions.drop_last(), blocked);
        match crate::response::version_coordinate(versions.last()) {
            Some(coordinate) => if blocked.contains(coordinate) {
                before
            } else {
                before.push(versions.last())
            },
            None => before,
        }
    }
}

/// An extension record without the versions that a verdict withholds.
pub open spec fn gated_extension(extension: JsonValue, blocked: Seq<Seq<char>>) -> Option<
    JsonValue,
> {
    if !gateable(extension) {
        None
    } else if blocked.len() == 0 {
        Some(extension)
    } else {
        Some(
            extension.with(
                "versions"@,
                JsonValue::List(allowed(extension.list_at("versions"@)->Some_0, blocked)),
            ),
        )
    }
}

/// Extension records, each without the versions that its verdict withholds.
pub open spec fn gated_extensions(
    extensions: Seq<JsonValue>,
    verdicts: Seq<Seq<Seq<char>>>,
) -> Option<Seq<JsonValue>> {
    if forall|i: int| 0 <= i < extensions.len() ==> gateable(#[trigger] extensions[i]) {
        Some(
            Seq::new(
                extensions.len(),
                |i: int| gated_extension(extensions[i], verdicts[i])->Some_0,
            ),
        )
    } else {
        None
    }
}

/// Whether an extension record has a version.
pub open spec fn has_versions(extension: JsonValue) -> bool {
    match extension.list_at("versions"@) {
        Some(versions) => versions.len() > 0,
        None => false,
    }
}

/// The extension records that have a version.
pub open spec fn with_versions(extensions: Seq<JsonValue>) -> Seq<JsonValue>
    decreases extensions.len(),
{
    if extensions.len() == 0 {
        Seq::empty()
    } else if has_versions(extensions.last()) {
        with_versions(extensions.drop_last()).push(extensions.last())
    } else {
        with_versions(extensions.drop_last())
    }
}

/// A result record without what the verdicts withhold: extensions left without a version are
/// gone, and are taken off its counts.
pub open spec fn gated_result(result: JsonValue, verdicts: Seq<Seq<Seq<char>>>) -> Option<
    JsonValue,
> {
    match result.list_at("extensions"@) {
        Some(extensions) => match gated_extensions(extensions, verdicts) {
            Some(gated) => {
                let kept = with_versions(gated);
                Some(
                    crate::envelope::reconciled(
                        result.with("extensions"@, JsonValue::List(kept)),
                        (extensions.len() - kept.len()) as nat,
                    ),
                )
            },
            None => None,
        },
        None => None,
    }
}

/// Result records without what the verdicts withhold. The verdicts go with the extension records
/// in their order; where one is missing, the age gate could not be evaluated.
pub open spec fn gated_results(
    results: Seq<JsonValue>,
    verdicts: Seq<Seq<Seq<char>>>,
) -> Result<Seq<JsonValue>, GalleryError>
    decreases results.len(),
{
    if results.len() == 0 {
        Ok(Seq::empty())
    } else {
        match results[0].list_at("extensions"@) {
            Some(extensions) => if extensions.len() > verdicts.len() {
                Err(GalleryError::MetadataGateUnavailable)
            } else {
                match gated_result(results[0], verdicts.take(extensions.len() as int)) {
                    Some(first) => match gated_results(
                        results.drop_first(),
                        verdicts.skip(extensions.len() as int),
                    ) {
                        Ok(rest) => Ok(seq![first] + rest),
                        Err(error) => Err(error),
                    },
                    None => Err(GalleryError::InvalidResponse),
                }
            },
            None => Err(GalleryError::InvalidResponse),
        }
    }
}

/// A gallery document without what the verdicts withhold.
pub open spec fn gated_response(
    response: JsonValue,
    verdicts: Seq<Seq<Seq<char>>>,
) -> Result<JsonValue, GalleryError> {
    match response.list_at("results"@) {
        Some(results) => match gated_results(results, verdicts) {
            Ok(gated) => Ok(response.with("results"@, JsonValue::List(gated))),
            Err(error) => Err(error),
        },
        None => Err(GalleryError::InvalidResponse),
    }
}

/// The set of the coordinates in a verdict.
pub(crate) fn blocked_set(blocked: &Vec<String>) -> (set: StringHashSet)
    ensures
        forall|coordinate: Seq<char>| #[trigger]
            set@.contains(coordinate) <==> verdict_view(blocked@).contains(coordinate),
{
    let mut set = StringHashSet::new();
    let ghost all = verdict_view(blocked@);
    let mut i: usize = 0;
    while i < blocked.len()
        invariant
            i <= blocked@.len(),
            all == verdict_view(blocked@),
            forall|coordinate: Seq<char>| #[trigger]
                set@.contains(coordinate) <==> (exists|k: int|
                    0 <= k < i && #[trigger] all[k] == coordinate),
        decreases blocked@.len() - i,
    {
        let ghost before = set@;
        assert(all[i as int] == blocked@[i as int]@);
        set.insert(blocked[i].as_str().to_string());
        i += 1;
        proof {
            assert forall|coordinate: Seq<char>| #[trigger] set@.contains(coordinate) <==> (exists|
                k: int,
            |
                0 <= k < i && #[trigger] all[k] == coordinate) by {
                if before.contains(coordinate) {
                    let k = choose|k: int| 0 <= k < i - 1 && #[trigger] all[k] == coordinate;
                    assert(0 <= k < i && all[k] == coordinate);
                }
                if coordinate == all[i - 1] {
                    assert(0 <= i - 1 < i && all[i - 1] == coordinate);
                }
                if exists|k: int| 0 <= k < i && #[trigger] all[k] == coordinate {
                    let k = choose|k: int| 0 <= k < i && #[trigger] all[k] == coordinate;
                    if k < i - 1 {
                        assert(before.contains(coordinate));
                    }
                }
            }
        }
    }
    set
}

/// The version records that a verdict does not withhold.
fn keep_allowed(versions: Vec<Json>, blocked: &Vec<String>) -> (kept: Vec<Json>)
    ensures
        crate::json::json_views(kept@) == allowed(
            crate::json::json_views(versions@),
            verdict_view(blocked@),
        ),
{
    let set = blocked_set(blocked);
    let ghost records = crate::json::json_views(versions@);
    let mut kept: Vec<Json> = Vec::new();
    assert(crate::json::json_views(kept@) =~= allowed(records.take(0), verdict_view(blocked@)));
    for version in it: versions
        invariant
            it.seq() == versions@,
            records == crate::json::json_views(versions@),
            forall|coordinate: Seq<char>| #[trigger]
                set@.contains(coordinate) <==> verdict_view(blocked@).contains(coordinate),
            crate::json::json_views(kept@) == allowed(
                records.take(it.index() as int),
                verdict_view(blocked@),
            ),
    {
        let ghost at = it.index() as int;
        proof {
            assert(records[at] == version@);
            assert(records.take(at + 1).drop_last() =~= records.take(at));
            assert(records.take(at + 1).last() == version@);
        }
        if let Some(coordinate) = gallery_version_coordinate(&version) {
            if !set.contains(coordinate.as_str()) {
                let ghost held = crate::json::json_views(kept@);
                kept.push(version);
                assert(crate::json::json_views(kept@) =~= held.push(version@));
            }
        }
    }
    assert(records.take(records.len() as int) =~= records);
    kept
}

/// Takes from an extension record the versions that a verdict withholds.
fn gate_extension(extension: Json, blocked: &Vec<String>) -> (gated: Result<Json, GalleryError>)
    ensures
        crate::response::json_or_error(gated) == crate::response::or_invalid(
            gated_extension(extension@, verdict_view(blocked@)),
        ),
{
    let ghost whole = extension@;
    gate_batch(&extension)?;
    if blocked.len() == 0 {
        return Ok(extension);
    }
    let mut extension = extension;
    let versions = match extension.take_list("versions") {
        Some(versions) => versions,
        None => return Err(invalid_gallery_response()),
    };
    let kept = keep_allowed(versions, blocked);
    extension.insert("versions", Json::list(kept));
    proof {
        crate::response::lemma_set_twice(
            whole,
            "versions"@,
            JsonValue::Null,
            JsonValue::List(crate::json::json_views(kept@)),
        );
    }
    Ok(extension)
}

/// Takes from extension records what the verdicts from `first` on withhold, and leaves out those
/// that have no version then.
fn gate_extensions(extensions: Vec<Json>, verdicts: &Vec<Vec<String>>, first: usize) -> (kept:
    Result<Vec<Json>, GalleryError>)
    requires
        first + extensions@.len() <= verdicts@.len(),
    ensures
        match kept {
            Ok(kept) => {
                let gated = gated_extensions(
                    crate::json::json_views(extensions@),
                    verdict_views(verdicts@).skip(first as int).take(extensions@.len() as int),
                );
                &&& gated is Some
                &&& crate::json::json_views(kept@) == with_versions(gated->Some_0)
                &&& kept@.len() <= extensions@.len()
            },
            Err(error) => {
                &&& error == GalleryError::InvalidResponse
                &&& gated_extensions(
                    crate::json::json_views(extensions@),
                    verdict_views(verdicts@).skip(first as int).take(extensions@.len() as int),
                ) is None
            },
        },
{
    let ghost records = crate::json::json_views(extensions@);
    let ghost mine = verdict_views(verdicts@).skip(first as int).take(extensions@.len() as int);
    let ghost mut done: Seq<JsonValue> = Seq::empty();
    let n: usize = verdicts.len();
    let mut kept: Vec<Json> = Vec::new();
    let mut at: usize = first;
    assert(crate::json::json_views(kept@) =~= with_versions(done));
    for extension in it: extensions
        invariant
            it.seq() == extensions@,
            records == crate::json::json_views(extensions@),
            mine == verdict_views(verdicts@).skip(first as int).take(extensions@.len() as int),
            n == verdicts@.len(),
            first + extensions@.len() <= n,
            at == first + it.index(),
            done.len() == it.index(),
            kept@.len() <= it.index(),
            crate::json::json_views(kept@) == with_versions(done),
            forall|k: int| 0 <= k < it.index() ==> gateable(#[trigger] records[k]),
            forall|k: int|
                0 <= k < it.index() ==> gated_extension(records[k], mine[k]) == Some(
                    #[trigger] done[k],
                ),
    {
        let ghost k = it.index() as int;
        assert(records[k] == extension@);
        assert(mine[k] == verdict_view(verdicts@[at as int]@));
        let gated = match gate_extension(extension, &verdicts[at]) {
            Ok(gated) => gated,
            Err(error) => {
                assert(!gateable(records[k]));
                return Err(error);
            },
        };
        proof {
            let before = done;
            done = done.push(gated@);
            assert(done.drop_last() =~= before);
        }
        let ghost held = crate::json::json_views(kept@);
        if has_any_version(&gated) {
            kept.push(gated);
            assert(crate::json::json_views(kept@) =~= held.push(gated@));
        }
        at += 1;
    }
    assert(gated_extensions(records, mine)->Some_0 =~= done);
    Ok(kept)
}

/// Whether an extension record has a version.
fn has_any_version(extension: &Json) -> (has: bool)
    ensures
        has == has_versions(extension@),
{
    match extension.get_list("versions") {
        Some(versions) => versions.len() > 0,
        None => false,
    }
}

/// Takes from a result record what the verdicts from `first` on withhold.
fn gate_result(result: Json, verdicts: &Vec<Vec<String>>, first: usize) -> (gated: Result<
    (Json, usize),
    GalleryError,
>)
    requires
        first <= verdicts@.len(),
    ensures
        match result@.list_at("extensions"@) {
            Some(extensions) => match gated {
                Ok((after, next)) => {
                    &&& next == first + extensions.len()
                    &&& next <= verdicts@.len()
                    &&& gated_result(
                        result@,
                        verdict_views(verdicts@).skip(first as int).take(extensions.len() as int),
                    ) == Some(after@)
                },
                Err(error) => if extensions.len() > verdicts@.len() - first {
                    error == GalleryError::MetadataGateUnavailable
                } else {
                    &&& error == GalleryError::InvalidResponse
                    &&& gated_result(
                        result@,
                        verdict_views(verdicts@).skip(first as int).take(extensions.len() as int),
                    ) is None
                },
            },
            None => gated == Err::<(Json, usize), GalleryError>(GalleryError::InvalidResponse),
        },
{
    let ghost whole = result@;
    let mut result = result;
    let extensions = match result.take_list("extensions") {
        Some(extensions) => extensions,
        None => return Err(invalid_gallery_response()),
    };
    let count: usize = extensions.len();
    if count > verdicts.len() - first {
        return Err(GalleryError::MetadataGateUnavailable);
    }
    let kept = gate_extensions(extensions, verdicts, first)?;
    let removed: usize = count - kept.len();
    result.insert("extensions", Json::list(kept));
    proof {
        crate::response::lemma_set_twice(
            whole,
            "extensions"@,
            JsonValue::Null,
            JsonValue::List(crate::json::json_views(kept@)),
        );
    }
    Ok((reconcile_gallery_result_count(result, removed), first + count))
}

/// Whether some verdict withholds something.
pub open spec fn withholds(verdicts: Seq<Seq<Seq<char>>>) -> bool {
    exists|i: int| 0 <= i < verdicts.len() && (#[trigger] verdicts[i]).len() > 0
}

/// Takes from result records what the verdicts withhold.
fn gate_results(results: Vec<Json>, verdicts: &Vec<Vec<String>>) -> (gated: Result<
    Vec<Json>,
    GalleryError,
>)
    ensures
        match gated {
            Ok(gated) => gated_results(
                crate::json::json_views(results@),
                verdict_views(verdicts@),
            ) == Ok::<Seq<JsonValue>, GalleryError>(crate::json::json_views(gated@)),
            Err(error) => gated_results(
                crate::json::json_views(results@),
                verdict_views(verdicts@),
            ) == Err::<Seq<JsonValue>, GalleryError>(error),
        },
{
    let ghost all = verdict_views(verdicts@);
    let ghost records = crate::json::json_views(results@);
    let mut done: Vec<Json> = Vec::new();
    let mut next: usize = 0;
    proof {
        assert(records.skip(0) =~= records);
        assert(all.skip(0) =~= all);
        if let Ok(rest) = gated_results(records, all) {
            assert(crate::json::json_views(done@) + rest =~= rest);
        }
    }
    for result in it: results
        invariant
            it.seq() == results@,
            records == crate::json::json_views(results@),
            all == verdict_views(verdicts@),
            next <= verdicts@.len(),
            gated_results(records, all) == continued(
                crate::json::json_views(done@),
                gated_results(records.skip(it.index() as int), all.skip(next as int)),
            ),
    {
        let ghost at = it.index() as int;
        let ghost rest = records.skip(at);
        let ghost before = crate::json::json_views(done@);
        let ghost from = next as int;
        assert(rest[0] == result@);
        assert(rest.drop_first() =~= records.skip(at + 1));
        let (after, following) = gate_result(result, verdicts, next)?;
        proof {
            let n = result@.list_at("extensions"@)->Some_0.len() as int;
            assert(all.skip(from).skip(n) =~= all.skip(from + n));
        }
        done.push(after);
        next = following;
        proof {
            assert(crate::json::json_views(done@) =~= before.push(after@));
            if let Ok(tail) = gated_results(records.skip(at + 1), all.skip(next as int)) {
                assert(before + (seq![after@] + tail) =~= before.push(after@) + tail);
            }
        }
    }
    proof {
        assert(records.skip(records.len() as int).len() == 0);
        assert(crate::json::json_views(done@) + Seq::<JsonValue>::empty()
            =~= crate::json::json_views(done@));
    }
    Ok(done)
}

/// Takes from a gallery document what the verdicts withhold: the versions, the extensions left
/// without one, and those extensions from the counts. The verdicts go with the extension records
/// in the document's order.
pub fn apply_gate(response: Json, verdicts: &Vec<Vec<String>>) -> (gated: Result<
    Json,
    GalleryError,
>)
    ensures
        crate::response::json_or_error(gated) == gated_response(
            response@,
            verdict_views(verdicts@),
        ),
{
    let ghost whole = response@;
    let mut response = response;
    let results = match response.take_list("results") {
        Some(results) => results,
        None => return Err(invalid_gallery_response()),
    };
    let done = gate_results(results, verdicts)?;
    response.insert("results", Json::list(done));
    proof {
        crate::response::lemma_set_twice(
            whole,
            "results"@,
            JsonValue::Null,
            JsonValue::List(crate::json::json_views(done@)),
        );
    }
    Ok(response)
}

/// What comes of a list once its front is `done`.
spec fn continued(
    done: Seq<JsonValue>,
    rest: Result<Seq<JsonValue>, GalleryError>,
) -> Result<Seq<JsonValue>, GalleryError> {
    match rest {
        Ok(rest) => Ok(done + rest),
        Err(error) => Err(error),
    }
}

/// A verdict's coordinates are gone and all other versions are there, in their order: what is
/// allowed holds exactly the versions whose coordinate the verdict does not name.
pub proof fn verdicts_decide_versions(versions: Seq<JsonValue>, blocked: Seq<Seq<char>>)
    requires
        all_coordinates(versions),
    ensures
        forall|i: int|
            0 <= i < allowed(versions, blocked).len() ==> versions.contains(
                #[trigger] allowed(versions, blocked)[i],
            ) && !blocked.contains(
                crate::response::version_coordinate(allowed(versions, blocked)[i])->Some_0,
            ),
        forall|i: int|
            0 <= i < versions.len() && !blocked.contains(
                crate::response::version_coordinate(#[trigger] versions[i])->Some_0,
            ) ==> allowed(versions, blocked).contains(versions[i]),
        blocked.len() == 0 ==> allowed(versions, blocked) == versions,
    decreases versions.len(),
{
    if versions.len() > 0 {
        let front = versions.drop_last();
        let before = allowed(front, blocked);
        let after = allowed(versions, blocked);
        assert(all_coordinates(front)) by {
            assert forall|i: int| 0 <= i < front.len() implies crate::response::version_coordinate(
                #[trigger] front[i],
            ) is Some by {
                assert(versions[i] == front[i]);
            }
        }
        verdicts_decide_versions(front, blocked);
        assert(crate::response::version_coordinate(versions[versions.len() - 1]) is Some);
        assert forall|i: int| 0 <= i < after.len() implies versions.contains(#[trigger] after[i])
            && !blocked.contains(crate::response::version_coordinate(after[i])->Some_0) by {
            if i < before.len() {
                assert(after[i] == before[i]);
                assert(front.contains(before[i]));
                let k = choose|k: int| 0 <= k < front.len() && front[k] == before[i];
                assert(versions[k] == after[i]);
            } else {
                assert(versions[versions.len() - 1] == after[i]);
            }
        }
        assert forall|i: int|
            0 <= i < versions.len() && !blocked.contains(
                crate::response::version_coordinate(#[trigger] versions[i])->Some_0,
            ) implies after.contains(versions[i]) by {
            if i < front.len() {
                assert(front[i] == versions[i]);
                assert(before.contains(front[i]));
                let k = choose|k: int| 0 <= k < before.len() && before[k] == front[i];
                assert(after[k] == versions[i]);
            } else {
                assert(after[before.len() as int] == versions[i]);
            }
        }
        if blocked.len() == 0 {
            assert(after =~= versions);
        }
    }
}

/// No extension record that the age gate has let through has a version that its verdict withholds.
pub proof fn withheld_versions_are_not_served(extension: JsonValue, blocked: Seq<Seq<char>>)
    requires
        gated_extension(extension, blocked) is Some,
    ensures
        ({
            let after = gated_extension(extension, blocked)->Some_0;
            let versions = after.list_at("versions"@);
            &&& versions is Some
            &&& forall|i: int|
                0 <= i < versions->Some_0.len() ==> {
                    let coordinate = crate::response::version_coordinate(
                        #[trigger] versions->Some_0[i],
                    );
                    coordinate is Some && !blocked.contains(coordinate->Some_0)
                }
            &&& forall|key: Seq<char>|
                key != "versions"@ ==> #[trigger] after.get(key) == extension.get(key)
        }),
{
    let versions = extension.list_at("versions"@)->Some_0;
    verdicts_decide_versions(versions, blocked);
    let kept = allowed(versions, blocked);
    assert(gated_extension(extension, blocked)->Some_0.list_at("versions"@) == Some(kept));
    assert forall|i: int| 0 <= i < kept.len() implies crate::response::version_coordinate(
        #[trigger] kept[i],
    ) is Some by {
        assert(versions.contains(kept[i]));
        let k = choose|k: int| 0 <= k < versions.len() && versions[k] == kept[i];
        assert(crate::response::version_coordinate(versions[k]) is Some);
    }
}

proof fn lemma_with_versions(extensions: Seq<JsonValue>)
    ensures
        with_versions(extensions).len() <= extensions.len(),
        forall|i: int|
            0 <= i < with_versions(extensions).len() ==> has_versions(
                #[trigger] with_versions(extensions)[i],
            ) && extensions.contains(with_versions(extensions)[i]),
    decreases extensions.len(),
{
    if extensions.len() > 0 {
        let front = extensions.drop_last();
        lemma_with_versions(front);
        let after = with_versions(extensions);
        assert forall|i: int| 0 <= i < after.len() implies has_versions(#[trigger] after[i])
            && extensions.contains(after[i]) by {
            if i < with_versions(front).len() {
                assert(front.contains(with_versions(front)[i]));
                let k = choose|k: int| 0 <= k < front.len() && front[k] == after[i];
                assert(extensions[k] == after[i]);
            } else {
                assert(extensions[extensions.len() - 1] == after[i]);
            }
        }
    }
}

/// Every extension record left in a gated result has a version, and is one that was there before
/// without what its own verdict withholds.
pub proof fn gated_extensions_have_versions(result: JsonValue, verdicts: Seq<Seq<Seq<char>>>)
    requires
        gated_result(result, verdicts) is Some,
    ensures
        ({
            let before = result.list_at("extensions"@)->Some_0;
            let after = gated_result(result, verdicts)->Some_0.list_at("extensions"@);
            &&& after is Some
            &&& forall|i: int|
                0 <= i < after->Some_0.len() ==> has_versions(#[trigger] after->Some_0[i])
                    && exists|k: int|
                    0 <= k < before.len() && gated_extension(#[trigger] before[k], verdicts[k])
                        == Some(after->Some_0[i])
        }),
{
    reveal_strlit("extensions");
    reveal_strlit("resultMetadata");
    assert("extensions"@.len() == 10);
    assert("resultMetadata"@.len() == 14);
    let before = result.list_at("extensions"@)->Some_0;
    let gated = gated_extensions(before, verdicts)->Some_0;
    let kept = with_versions(gated);
    lemma_with_versions(gated);
    assert(gated_result(result, verdicts)->Some_0.get("extensions"@) == Some(
        JsonValue::List(kept),
    ));
    assert forall|i: int| 0 <= i < kept.len() implies exists|k: int|
        0 <= k < before.len() && gated_extension(#[trigger] before[k], verdicts[k]) == Some(
            #[trigger] kept[i],
        ) by {
        assert(gated.contains(kept[i]));
        let k = choose|k: int| 0 <= k < gated.len() && gated[k] == kept[i];
        assert(gateable(before[k]));
        assert(gated_extension(before[k], verdicts[k]) == Some(kept[i]));
    }
}

/// Once the age gate has been asked about every extension record in turn and has answered, the
/// document can be gated.
pub proof fn a_gate_that_answered_is_applied(
    results: Seq<JsonValue>,
    verdicts: Seq<Seq<Seq<char>>>,
    n: nat,
)
    requires
        forall|k: nat|
            k < n ==> (match #[trigger] extension_at(results, k) {
                Ok(Some(extension)) => gateable(extension),
                _ => false,
            }),
        extension_at(results, n) == Ok::<Option<JsonValue>, GalleryError>(None),
        n <= verdicts.len(),
    ensures
        gated_results(results, verdicts) is Ok,
    decreases results.len(),
{
    if results.len() > 0 {
        if results[0].list_at("extensions"@) is None {
            assert(extension_at(results, n) is Err);
        }
        let extensions = results[0].list_at("extensions"@)->Some_0;
        let count = extensions.len();
        assert(count <= n);
        assert forall|i: int| 0 <= i < extensions.len() implies gateable(
            #[trigger] extensions[i],
        ) by {
            assert(extension_at(results, i as nat) == Ok::<Option<JsonValue>, GalleryError>(
                Some(extensions[i]),
            ));
        }
        let rest = results.drop_first();
        let left = (n - count) as nat;
        assert forall|k: nat| k < left implies (match #[trigger] extension_at(rest, k) {
            Ok(Some(extension)) => gateable(extension),
            _ => false,
        }) by {
            assert(extension_at(results, k + count) == extension_at(rest, k));
        }
        assert(extension_at(results, n) == extension_at(rest, left));
        a_gate_that_answered_is_applied(rest, verdicts.skip(count as int), left);
    }
}

/// Whether some verdict withholds something.
pub fn any_withheld(verdicts: &Vec<Vec<String>>) -> (any: bool)
    ensures
        any == withholds(verdict_views(verdicts@)),
{
    let ghost all = verdict_views(verdicts@);
    let mut i: usize = 0;
    while i < verdicts.len()
        invariant
            i <= verdicts@.len(),
            all == verdict_views(verdicts@),
            forall|k: int| 0 <= k < i ==> (#[trigger] all[k]).len() == 0,
        decreases verdicts@.len() - i,
    {
        assert(all[i as int] == verdict_view(verdicts@[i as int]@));
        if verdicts[i].len() > 0 {
            assert(all[i as int].len() > 0);
            return true;
        }
        i += 1;
    }
    false
}

} // verus!
