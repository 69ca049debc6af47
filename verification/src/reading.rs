//! Laws on version histories: what is read of an upstream's answer, the order it is put in, and
//! what is kept of it.

use vstd::prelude::*;

use crate::json::JsonValue;
use crate::skeleton::{
    GallerySkeletonWireExtension, GallerySkeletonWireProperty, GallerySkeletonWireResult,
    GallerySkeletonWireVersion, SkeletonEntry,
};

verus! {

/// Whether a property has the key `name`.
pub open spec fn is_property(property: GallerySkeletonWireProperty, name: Seq<char>) -> bool {
    match property.key {
        Some(key) => key@ == name,
        None => false,
    }
}

/// Whether the property at `i` is the last with the key `name`.
pub open spec fn last_property(
    properties: Seq<GallerySkeletonWireProperty>,
    name: Seq<char>,
    i: int,
) -> bool {
    &&& 0 <= i < properties.len()
    &&& is_property(properties[i], name)
    &&& forall|j: int| i < j < properties.len() ==> !is_property(#[trigger] properties[j], name)
}

/// Whether no property has the key `name`.
pub open spec fn no_property(
    properties: Seq<GallerySkeletonWireProperty>,
    name: Seq<char>,
) -> bool {
    forall|i: int| 0 <= i < properties.len() ==> !is_property(#[trigger] properties[i], name)
}

proof fn lemma_properties(properties: Seq<GallerySkeletonWireProperty>, i: int)
    ensures
        last_property(properties, "Microsoft.VisualStudio.Code.PreRelease"@, i)
            ==> crate::skeleton::prerelease_in(properties) == (crate::error::text_opt(
            properties[i].value,
        ) == Some("true"@)),
        no_property(properties, "Microsoft.VisualStudio.Code.PreRelease"@)
            ==> !crate::skeleton::prerelease_in(properties),
        last_property(properties, "Microsoft.VisualStudio.Code.Engine"@, i)
            ==> crate::skeleton::engine_in(properties) == crate::error::text_opt(
            properties[i].value,
        ),
        no_property(properties, "Microsoft.VisualStudio.Code.Engine"@)
            ==> crate::skeleton::engine_in(properties) is None,
    decreases properties.len(),
{
    if properties.len() > 0 {
        let front = properties.drop_last();
        lemma_properties(front, i);
        let prerelease = "Microsoft.VisualStudio.Code.PreRelease"@;
        let engine = "Microsoft.VisualStudio.Code.Engine"@;
        let end = properties.len() - 1;
        assert(properties[end] == properties.last());
        assert forall|name: Seq<char>| #[trigger] no_property(properties, name) implies no_property(
            front,
            name,
        ) by {
            assert forall|j: int| 0 <= j < front.len() implies !is_property(
                #[trigger] front[j],
                name,
            ) by {
                assert(properties[j] == front[j]);
            }
        }
        assert forall|name: Seq<char>| #[trigger]
            last_property(properties, name, i) && i < end implies last_property(front, name, i) by {
            assert forall|j: int| i < j < front.len() implies !is_property(
                #[trigger] front[j],
                name,
            ) by {
                assert(properties[j] == front[j]);
            }
        }
        if last_property(properties, prerelease, i) && i < end {
            assert(!is_property(properties[end], prerelease));
        }
        if last_property(properties, engine, i) && i < end {
            assert(!is_property(properties[end], engine));
        }
    }
}

/// Release channel and engine of a version are read wherever they stand among its properties. A
/// version is a pre-release exactly where the last property that speaks of it says `true`, and is
/// for the engine that the last property that speaks of it names; without such a property it is
/// stable, and for no engine.
pub proof fn properties_are_read_wherever_they_stand(wire: GallerySkeletonWireVersion, i: int)
    requires
        crate::skeleton::entry_of(wire) is Some,
    ensures
        ({
            let entry = crate::skeleton::entry_of(wire)->Some_0;
            match wire.properties {
                Some(properties) => {
                    &&& last_property(properties@, "Microsoft.VisualStudio.Code.PreRelease"@, i)
                        ==> entry.prerelease == (match properties@[i].value {
                        Some(value) => value@ == "true"@,
                        None => false,
                    })
                    &&& no_property(properties@, "Microsoft.VisualStudio.Code.PreRelease"@)
                        ==> !entry.prerelease
                    &&& last_property(properties@, "Microsoft.VisualStudio.Code.Engine"@, i) ==> (
                    match properties@[i].value {
                        Some(value) => entry.engine == Some(value@),
                        None => entry.engine is None,
                    })
                    &&& no_property(properties@, "Microsoft.VisualStudio.Code.Engine"@)
                        ==> entry.engine is None
                },
                None => !entry.prerelease && entry.engine is None,
            }
        }),
{
    lemma_properties(crate::skeleton::properties_of(wire), i);
}

/// A version is read exactly where its name and its platform may stand in a path. Its name is then
/// as the upstream has it, its platform the one that is meant, and its date the moment that the
/// upstream's text names, if it names one.
pub proof fn versions_are_read_as_they_are(wire: GallerySkeletonWireVersion)
    ensures
        ({
            let platform = crate::coordinate::platform_of(
                match wire.target_platform {
                    Some(platform) => Some(platform@),
                    None => None,
                },
            );
            match crate::skeleton::entry_of(wire) {
                Some(entry) => {
                    &&& crate::coordinate::safe_segment(wire.version@)
                    &&& crate::coordinate::safe_platform(platform)
                    &&& entry.version == wire.version@
                    &&& entry.target_platform == platform
                    &&& entry.last_updated == (match wire.last_updated {
                        Some(text) => crate::time::rfc3339_instant(text@),
                        None => None,
                    })
                },
                None => !(crate::coordinate::safe_segment(wire.version@)
                    && crate::coordinate::safe_platform(platform)),
            }
        }),
{
}

/// A history is read version by version: of two lists one after the other, what is read of the
/// first comes first and what is read of the second follows; of one version, that version, where
/// it can be read.
pub proof fn histories_are_read_version_by_version(
    first: Seq<GallerySkeletonWireVersion>,
    second: Seq<GallerySkeletonWireVersion>,
    wire: GallerySkeletonWireVersion,
)
    ensures
        crate::skeleton::entries_of(first + second) == crate::skeleton::entries_of(first)
            + crate::skeleton::entries_of(second),
        crate::skeleton::entries_of(seq![wire]) == (match crate::skeleton::entry_of(wire) {
            Some(entry) => seq![entry],
            None => Seq::empty(),
        }),
    decreases second.len(),
{
    reveal_with_fuel(crate::skeleton::entries_of, 2);
    assert(seq![wire].drop_last() =~= Seq::empty());
    assert(crate::skeleton::entries_of(seq![wire]) =~= (match crate::skeleton::entry_of(wire) {
        Some(entry) => seq![entry],
        None => Seq::empty(),
    }));
    if second.len() == 0 {
        assert(first + second =~= first);
        assert(crate::skeleton::entries_of(first) + crate::skeleton::entries_of(second)
            =~= crate::skeleton::entries_of(first));
    } else {
        histories_are_read_version_by_version(first, second.drop_last(), wire);
        assert((first + second).drop_last() =~= first + second.drop_last());
        assert((first + second).last() == second.last());
        assert(crate::skeleton::entries_of(first + second) =~= crate::skeleton::entries_of(first)
            + crate::skeleton::entries_of(second));
    }
}

/// A text, empty where there is none.
pub open spec fn text_of(text: Option<String>) -> Seq<char> {
    match text {
        Some(text) => text@,
        None => Seq::empty(),
    }
}

/// A history is read extension by extension: all of each that is the one asked for, whatever the
/// case of its letters, and nothing of another.
pub proof fn histories_are_read_extension_by_extension(
    first: Seq<GallerySkeletonWireExtension>,
    second: Seq<GallerySkeletonWireExtension>,
    extension: GallerySkeletonWireExtension,
    package: Seq<char>,
)
    ensures
        crate::skeleton::extension_entries(first + second, package)
            == crate::skeleton::extension_entries(first, package)
            + crate::skeleton::extension_entries(second, package),
        ({
            let publisher = match extension.publisher {
                Some(publisher) => text_of(publisher.publisher_name),
                None => Seq::empty(),
            };
            let id = publisher + "."@ + text_of(extension.extension_name);
            crate::skeleton::extension_entries(seq![extension], package) == (
            if crate::text::lowered(id) == package {
                crate::skeleton::entries_of(extension.versions@)
            } else {
                Seq::empty()
            })
        }),
    decreases second.len(),
{
    reveal_with_fuel(crate::skeleton::extension_entries, 2);
    assert(seq![extension].drop_last() =~= Seq::empty());
    assert(crate::skeleton::extension_entries(seq![extension], package) =~= (
    if crate::skeleton::wire_package(extension) == package {
        crate::skeleton::entries_of(extension.versions@)
    } else {
        Seq::empty()
    }));
    if second.len() == 0 {
        assert(first + second =~= first);
        assert(crate::skeleton::extension_entries(first, package)
            + crate::skeleton::extension_entries(second, package)
            =~= crate::skeleton::extension_entries(first, package));
    } else {
        histories_are_read_extension_by_extension(first, second.drop_last(), extension, package);
        assert((first + second).drop_last() =~= first + second.drop_last());
        assert((first + second).last() == second.last());
        assert(crate::skeleton::extension_entries(first + second, package)
            =~= crate::skeleton::extension_entries(first, package)
            + crate::skeleton::extension_entries(second, package));
    }
}

/// A history is read result by result.
pub proof fn histories_are_read_result_by_result(
    first: Seq<GallerySkeletonWireResult>,
    second: Seq<GallerySkeletonWireResult>,
    result: GallerySkeletonWireResult,
    package: Seq<char>,
)
    ensures
        crate::skeleton::result_entries(first + second, package)
            == crate::skeleton::result_entries(first, package) + crate::skeleton::result_entries(
            second,
            package,
        ),
        crate::skeleton::result_entries(seq![result], package)
            == crate::skeleton::extension_entries(result.extensions@, package),
    decreases second.len(),
{
    reveal_with_fuel(crate::skeleton::result_entries, 2);
    assert(seq![result].drop_last() =~= Seq::empty());
    assert(crate::skeleton::result_entries(seq![result], package)
        =~= crate::skeleton::extension_entries(result.extensions@, package));
    if second.len() == 0 {
        assert(first + second =~= first);
        assert(crate::skeleton::result_entries(first, package) + crate::skeleton::result_entries(
            second,
            package,
        ) =~= crate::skeleton::result_entries(first, package));
    } else {
        histories_are_read_result_by_result(first, second.drop_last(), result, package);
        assert((first + second).drop_last() =~= first + second.drop_last());
        assert((first + second).last() == second.last());
        assert(crate::skeleton::result_entries(first + second, package)
            =~= crate::skeleton::result_entries(first, package) + crate::skeleton::result_entries(
            second,
            package,
        ));
    }
}

/// Whether a date is no older than another: undated is older than any date.
pub open spec fn no_older(a: Option<(i64, u32)>, b: Option<(i64, u32)>) -> bool {
    match (a, b) {
        (Some((seconds, nanos)), Some((other_seconds, other_nanos))) => seconds > other_seconds || (
        seconds == other_seconds && nanos >= other_nanos),
        (_, None) => true,
        (None, Some(_)) => false,
    }
}

/// The newest-first order of dates lists every place once, a later date ahead of an earlier one
/// and any date ahead of none; places of the same date keep their order.
pub proof fn newer_comes_first_and_ties_keep_their_order(dates: Seq<Option<(i64, u32)>>)
    ensures
        ({
            let order = crate::time::newest_first(dates);
            &&& order.len() == dates.len()
            &&& forall|p: int| 0 <= p < order.len() ==> 0 <= #[trigger] order[p] < dates.len()
            &&& forall|i: int| 0 <= i < dates.len() ==> #[trigger] order.contains(i)
            &&& forall|p: int, q: int|
                0 <= p < q < order.len() ==> {
                    &&& no_older(dates[#[trigger] order[p]], dates[#[trigger] order[q]])
                    &&& dates[order[p]] == dates[order[q]] ==> order[p] < order[q]
                }
        }),
{
    let order = crate::time::newest_first(dates);
    crate::time::newest_first_is_listed(dates);
    crate::time::lemma_listed_all(dates, order);
    assert forall|p: int, q: int| 0 <= p < q < order.len() implies {
        &&& no_older(dates[#[trigger] order[p]], dates[#[trigger] order[q]])
        &&& dates[order[p]] == dates[order[q]] ==> order[p] < order[q]
    } by {
        assert(crate::time::precedes(dates, order[p], order[q]));
    }
}

/// A sorted history is the history in the newest-first order of its dates.
pub proof fn histories_are_sorted_by_their_dates(entries: Seq<SkeletonEntry>)
    ensures
        ({
            let dates = Seq::new(entries.len(), |i: int| entries[i].last_updated);
            let order = crate::time::newest_first(dates);
            &&& crate::skeleton::sorted_entries(entries).len() == order.len()
            &&& forall|p: int|
                0 <= p < order.len() ==> #[trigger] crate::skeleton::sorted_entries(entries)[p]
                    == entries[order[p]]
        }),
{
    let dates = Seq::new(entries.len(), |i: int| entries[i].last_updated);
    assert(crate::skeleton::entry_dates(entries) =~= dates);
}

/// Sorted version records are the records in the newest-first order of the dates that they say.
pub proof fn records_are_sorted_by_their_dates(versions: Seq<JsonValue>)
    ensures
        ({
            let dates = Seq::new(
                versions.len(),
                |i: int|
                    match versions[i].text_at("lastUpdated"@) {
                        Some(text) => crate::time::rfc3339_instant(text),
                        None => None,
                    },
            );
            let order = crate::time::newest_first(dates);
            &&& crate::compose::sorted_records(versions).len() == order.len()
            &&& forall|p: int|
                0 <= p < order.len() ==> #[trigger] crate::compose::sorted_records(versions)[p]
                    == versions[order[p]]
        }),
{
    let dates = Seq::new(
        versions.len(),
        |i: int|
            match versions[i].text_at("lastUpdated"@) {
                Some(text) => crate::time::rfc3339_instant(text),
                None => None,
            },
    );
    assert(crate::compose::record_dates(versions) =~= dates);
}

/// The coordinate of a version: its name, an `@` and the platform it is for.
pub open spec fn named_coordinate(entry: SkeletonEntry) -> Seq<char> {
    entry.version + "@"@ + crate::coordinate::platform_of(Some(entry.target_platform))
}

/// The versions of a history that are the first with their coordinate.
pub open spec fn firsts(entries: Seq<SkeletonEntry>) -> Seq<SkeletonEntry>
    decreases entries.len(),
{
    if entries.len() == 0 {
        Seq::empty()
    } else {
        let front = entries.drop_last();
        if exists|i: int|
            0 <= i < front.len() && named_coordinate(#[trigger] front[i]) == named_coordinate(
                entries.last(),
            ) {
            firsts(front)
        } else {
            firsts(front).push(entries.last())
        }
    }
}

/// The versions of a platform and a release channel.
pub open spec fn in_channel(platform: Seq<char>, prerelease: bool) -> spec_fn(
    SkeletonEntry,
) -> bool {
    |entry: SkeletonEntry| entry.target_platform == platform && entry.prerelease == prerelease
}

proof fn lemma_channel_count(entries: Seq<SkeletonEntry>, platform: Seq<char>, prerelease: bool)
    ensures
        crate::skeleton::channel_count(entries, platform, prerelease) == entries.filter(
            in_channel(platform, prerelease),
        ).len(),
    decreases entries.len(),
{
    reveal(Seq::filter);
    if entries.len() > 0 {
        lemma_channel_count(entries.drop_last(), platform, prerelease);
    }
}

/// Of each platform and release channel, the first thirty versions of the history are kept, or all
/// where there are fewer; a coordinate that is listed again does not count.
pub proof fn thirty_of_each_channel_are_kept(
    entries: Seq<SkeletonEntry>,
    platform: Seq<char>,
    prerelease: bool,
)
    ensures
        ({
            let all = firsts(entries).filter(in_channel(platform, prerelease));
            crate::skeleton::bounded(entries).filter(in_channel(platform, prerelease)) == (
            if all.len() <= 30 {
                all
            } else {
                all.take(30)
            })
        }),
    decreases entries.len(),
{
    let pred = in_channel(platform, prerelease);
    reveal(Seq::filter);
    if entries.len() > 0 {
        let front = entries.drop_last();
        let entry = entries.last();
        thirty_of_each_channel_are_kept(front, platform, prerelease);
        let kept = crate::skeleton::bounded(front);
        lemma_channel_count(kept, entry.target_platform, entry.prerelease);
        let repeated = exists|i: int|
            0 <= i < front.len() && named_coordinate(#[trigger] front[i]) == named_coordinate(
                entry,
            );
        assert(repeated == crate::skeleton::has_coordinate(
            front,
            crate::skeleton::entry_coordinate(entry),
        )) by {
            if repeated {
                let i = choose|i: int|
                    0 <= i < front.len() && named_coordinate(#[trigger] front[i])
                        == named_coordinate(entry);
                assert(crate::skeleton::entry_coordinate(front[i])
                    == crate::skeleton::entry_coordinate(entry));
            }
            if crate::skeleton::has_coordinate(front, crate::skeleton::entry_coordinate(entry)) {
                let i = choose|i: int|
                    0 <= i < front.len() && crate::skeleton::entry_coordinate(#[trigger] front[i])
                        == crate::skeleton::entry_coordinate(entry);
                assert(named_coordinate(front[i]) == named_coordinate(entry));
            }
        }
        let before = firsts(front).filter(pred);
        let all = firsts(entries).filter(pred);
        let whole = crate::skeleton::bounded(entries).filter(pred);
        assert(crate::skeleton::bounded(entries).len() > kept.len()
            ==> crate::skeleton::bounded(entries).drop_last() =~= kept);
        assert(!repeated ==> firsts(entries).drop_last() =~= firsts(front));
        if !repeated && pred(entry) {
            assert(all =~= before.push(entry));
            if before.len() >= 30 {
                assert(all.take(30) =~= before.take(30));
            }
        }
        assert(whole =~= (if all.len() <= 30 {
            all
        } else {
            all.take(30)
        }));
    } else {
        assert(firsts(entries).filter(pred) =~= Seq::empty());
        assert(crate::skeleton::bounded(entries).filter(pred) =~= Seq::empty());
    }
}

/// The date of a build is that of the first version of the history with its name and its platform;
/// where there is none, the build is not found.
pub proof fn evidence_is_of_the_very_build(
    entries: Seq<SkeletonEntry>,
    version: Seq<char>,
    platform: Seq<char>,
)
    ensures
        match crate::skeleton::exact_date(entries, version, platform) {
            Some(date) => exists|i: int|
                #![trigger entries[i]]
                0 <= i < entries.len() && entries[i].version == version
                    && entries[i].target_platform == platform && entries[i].last_updated == date
                    && forall|j: int|
                    0 <= j < i ==> !((#[trigger] entries[j]).version == version
                        && entries[j].target_platform == platform),
            None => forall|i: int|
                0 <= i < entries.len() ==> !((#[trigger] entries[i]).version == version
                    && entries[i].target_platform == platform),
        },
    decreases entries.len(),
{
    if entries.len() > 0 {
        let rest = entries.drop_first();
        evidence_is_of_the_very_build(rest, version, platform);
        if entries[0].version == version && entries[0].target_platform == platform {
            assert(entries[0].last_updated == crate::skeleton::exact_date(
                entries,
                version,
                platform,
            )->Some_0);
        } else {
            match crate::skeleton::exact_date(entries, version, platform) {
                Some(date) => {
                    let i = choose|i: int|
                        #![trigger rest[i]]
                        0 <= i < rest.len() && rest[i].version == version
                            && rest[i].target_platform == platform && rest[i].last_updated == date
                            && forall|j: int|
                            0 <= j < i ==> !((#[trigger] rest[j]).version == version
                                && rest[j].target_platform == platform);
                    assert(entries[i + 1] == rest[i]);
                    assert forall|j: int| 0 <= j < i + 1 implies !((#[trigger] entries[j]).version
                        == version && entries[j].target_platform == platform) by {
                        if j > 0 {
                            assert(rest[j - 1] == entries[j]);
                        }
                    }
                },
                None => {
                    assert forall|i: int| 0 <= i < entries.len() implies !((
                    #[trigger] entries[i]).version == version && entries[i].target_platform
                        == platform) by {
                        if i > 0 {
                            assert(rest[i - 1] == entries[i]);
                        }
                    }
                },
            }
        }
    }
}

} // verus!
