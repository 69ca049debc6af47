//! Laws on composed answers: which records an extension is composed of, and which versions are
//! served once the age gate has withheld some.

use vstd::prelude::*;

use crate::error::GalleryError;
use crate::json::{Json, JsonValue};
use crate::skeleton::SkeletonEntry;

verus! {

/// Whether the detailed record at `j` is the last with a coordinate.
pub open spec fn last_with(detailed: Seq<JsonValue>, coordinate: Seq<char>, j: int) -> bool {
    &&& 0 <= j < detailed.len()
    &&& crate::response::version_coordinate(detailed[j]) == Some(coordinate)
    &&& forall|k: int|
        j < k < detailed.len() ==> crate::response::version_coordinate(#[trigger] detailed[k])
            != Some(coordinate)
}

/// Whether a version before the one at `i` has its coordinate.
pub open spec fn repeated(entries: Seq<SkeletonEntry>, i: int) -> bool {
    exists|k: int|
        0 <= k < i && crate::reading::named_coordinate(#[trigger] entries[k])
            == crate::reading::named_coordinate(entries[i])
}

/// Whether a record is that of the version at `i`: the last detailed one with its coordinate, where
/// there is one and the version is the first with it; else the one that is built of the history.
pub open spec fn records_version(
    record: JsonValue,
    entries: Seq<SkeletonEntry>,
    i: int,
    detailed: Seq<JsonValue>,
    base_url: Seq<char>,
    repo_key: Seq<char>,
    publisher: Seq<char>,
    name: Seq<char>,
    flags: u32,
) -> bool {
    let entry = entries[i];
    let coordinate = crate::reading::named_coordinate(entry);
    if !repeated(entries, i) && exists|j: int| #[trigger] last_with(detailed, coordinate, j) {
        exists|j: int| #[trigger] last_with(detailed, coordinate, j) && record == detailed[j]
    } else {
        &&& crate::coordinate::safe_segment(entry.version)
        &&& crate::coordinate::safe_platform(entry.target_platform)
        &&& record == crate::skeleton::built_version(
            entry,
            crate::addresses::build_root(
                base_url,
                repo_key,
                publisher,
                name,
                entry.version,
                entry.target_platform,
            ),
            flags,
        )
    }
}

/// The places of a list, in order.
pub open spec fn places(n: nat) -> Seq<int> {
    Seq::new(n, |i: int| i)
}

/// The items at the given places.
pub open spec fn items_at<T>(items: Seq<T>, at: Seq<int>) -> Seq<T> {
    Seq::new(at.len(), |i: int| items[at[i]])
}

/// Which detailed records are the last with their coordinate, and of no version of the history.
pub open spec fn unlisted(detailed: Seq<JsonValue>, entries: Seq<SkeletonEntry>) -> spec_fn(
    int,
) -> bool {
    |j: int|
        {
            let coordinate = crate::response::version_coordinate(detailed[j]);
            &&& coordinate is Some
            &&& last_with(detailed, coordinate->Some_0, j)
            &&& forall|i: int|
                0 <= i < entries.len() ==> crate::reading::named_coordinate(#[trigger] entries[i])
                    != coordinate->Some_0
        }
}

proof fn lemma_places(n: nat, p: spec_fn(int) -> bool)
    requires
        n > 0,
    ensures
        places(n).filter(p) == (if p(n - 1) {
            places((n - 1) as nat).filter(p).push(n - 1)
        } else {
            places((n - 1) as nat).filter(p)
        }),
{
    reveal(Seq::filter);
    assert(places(n).drop_last() =~= places((n - 1) as nat));
    assert(places(n).last() == n - 1);
}

proof fn lemma_detail(detailed: Seq<JsonValue>, coordinate: Seq<char>)
    ensures
        match crate::compose::detail_for(detailed, coordinate) {
            Some(record) => exists|j: int| #[trigger]
                last_with(detailed, coordinate, j) && record == detailed[j],
            None => forall|j: int| !#[trigger] last_with(detailed, coordinate, j),
        },
    decreases detailed.len(),
{
    if detailed.len() > 0 {
        let n = detailed.len() - 1;
        if crate::response::version_coordinate(detailed.last()) == Some(coordinate) {
            assert(last_with(detailed, coordinate, n));
        } else {
            let front = detailed.drop_last();
            lemma_detail(front, coordinate);
            match crate::compose::detail_for(front, coordinate) {
                Some(record) => {
                    let j = choose|j: int| #[trigger]
                        last_with(front, coordinate, j) && record == front[j];
                    assert forall|k: int| j < k < detailed.len() implies
                        crate::response::version_coordinate(#[trigger] detailed[k]) != Some(
                        coordinate,
                    ) by {
                        if k < n {
                            assert(front[k] == detailed[k]);
                        }
                    }
                    assert(last_with(detailed, coordinate, j));
                },
                None => {
                    assert forall|j: int| !#[trigger] last_with(detailed, coordinate, j) by {
                        if last_with(detailed, coordinate, j) {
                            assert forall|k: int| j < k < front.len() implies
                                crate::response::version_coordinate(#[trigger] front[k]) != Some(
                                coordinate,
                            ) by {
                                assert(front[k] == detailed[k]);
                            }
                            assert(last_with(front, coordinate, j));
                        }
                    }
                },
            }
        }
    }
}

proof fn lemma_repeated(entries: Seq<SkeletonEntry>, i: int)
    requires
        0 <= i < entries.len(),
    ensures
        repeated(entries, i) <==> crate::skeleton::has_coordinate(
            entries.take(i),
            crate::skeleton::entry_coordinate(entries[i]),
        ),
{
    let front = entries.take(i);
    let coordinate = crate::skeleton::entry_coordinate(entries[i]);
    if repeated(entries, i) {
        let k = choose|k: int|
            0 <= k < i && crate::reading::named_coordinate(#[trigger] entries[k])
                == crate::reading::named_coordinate(entries[i]);
        assert(front[k] == entries[k]);
    }
    if crate::skeleton::has_coordinate(front, coordinate) {
        let k = choose|k: int|
            0 <= k < front.len() && crate::skeleton::entry_coordinate(#[trigger] front[k])
                == coordinate;
        assert(entries[k] == front[k]);
    }
}

proof fn lemma_record(
    entries: Seq<SkeletonEntry>,
    i: int,
    detailed: Seq<JsonValue>,
    base_url: Seq<char>,
    repo_key: Seq<char>,
    publisher: Seq<char>,
    name: Seq<char>,
    flags: u32,
)
    requires
        0 <= i < entries.len(),
    ensures
        match crate::compose::merged_at(
            entries,
            i,
            detailed,
            base_url,
            repo_key,
            publisher,
            name,
            flags,
        ) {
            Some(record) => records_version(
                record,
                entries,
                i,
                detailed,
                base_url,
                repo_key,
                publisher,
                name,
                flags,
            ),
            None => forall|record: JsonValue|
                !#[trigger] records_version(
                    record,
                    entries,
                    i,
                    detailed,
                    base_url,
                    repo_key,
                    publisher,
                    name,
                    flags,
                ),
        },
{
    let entry = entries[i];
    let coordinate = crate::reading::named_coordinate(entry);
    lemma_repeated(entries, i);
    lemma_detail(detailed, coordinate);
    crate::addresses::assets_are_served_under_their_build(
        base_url,
        repo_key,
        publisher,
        name,
        entry.version,
        entry.target_platform,
    );
}

proof fn lemma_leftovers(detailed: Seq<JsonValue>, entries: Seq<SkeletonEntry>, n: nat)
    requires
        n <= detailed.len(),
        crate::gate::all_coordinates(detailed),
    ensures
        crate::compose::leftovers(detailed, entries, n) == items_at(
            detailed,
            places(n).filter(unlisted(detailed, entries)),
        ),
    decreases n,
{
    let p = unlisted(detailed, entries);
    if n == 0 {
        reveal(Seq::filter);
        assert(places(0).filter(p) =~= Seq::empty());
        assert(items_at(detailed, places(0).filter(p)) =~= Seq::<JsonValue>::empty());
    } else {
        lemma_leftovers(detailed, entries, (n - 1) as nat);
        lemma_places(n, p);
        let j = n - 1;
        assert(crate::response::version_coordinate(detailed[j]) is Some);
        let coordinate = crate::response::version_coordinate(detailed[j])->Some_0;
        let last = crate::compose::is_last(detailed, j);
        if last {
            assert(last_with(detailed, coordinate, j));
        }
        if last_with(detailed, coordinate, j) {
            assert(last);
        }
        let held = crate::skeleton::has_coordinate(entries, coordinate);
        if held {
            let i = choose|i: int|
                0 <= i < entries.len() && crate::skeleton::entry_coordinate(#[trigger] entries[i])
                    == coordinate;
            assert(crate::reading::named_coordinate(entries[i]) == coordinate);
        } else {
            assert forall|i: int| 0 <= i < entries.len() implies crate::reading::named_coordinate(
                #[trigger] entries[i],
            ) != coordinate by {
                assert(crate::skeleton::entry_coordinate(entries[i])
                    == crate::reading::named_coordinate(entries[i]));
            }
        }
        assert(p(j) == (last && !held));
        let before = places((n - 1) as nat).filter(p);
        if p(j) {
            assert(items_at(detailed, before.push(j)) =~= items_at(detailed, before).push(
                detailed[j],
            ));
        }
    }
}

/// Whether the version at `i` has a record.
pub open spec fn has_record(
    entries: Seq<SkeletonEntry>,
    i: int,
    detailed: Seq<JsonValue>,
) -> bool {
    ||| crate::coordinate::safe_segment(entries[i].version) && crate::coordinate::safe_platform(
        entries[i].target_platform,
    )
    ||| !repeated(entries, i) && exists|j: int| #[trigger]
        last_with(detailed, crate::reading::named_coordinate(entries[i]), j)
}

/// The versions of a composed extension are one record for every version of the history, and behind
/// them the detailed records that the history does not have, all put newest first. There are none
/// exactly where a detailed record has no coordinate, or a version of the history no record.
pub proof fn histories_are_filled_with_detail(
    entries: Seq<SkeletonEntry>,
    detailed: Seq<JsonValue>,
    base_url: Seq<char>,
    repo_key: Seq<char>,
    publisher: Seq<char>,
    name: Seq<char>,
    flags: u32,
)
    ensures
        match crate::compose::composed_versions(
            entries,
            detailed,
            base_url,
            repo_key,
            publisher,
            name,
            flags,
        ) {
            Some(versions) => exists|front: Seq<JsonValue>|
                {
                    &&& front.len() == entries.len()
                    &&& forall|i: int|
                        0 <= i < entries.len() ==> records_version(
                            #[trigger] front[i],
                            entries,
                            i,
                            detailed,
                            base_url,
                            repo_key,
                            publisher,
                            name,
                            flags,
                        )
                    &&& versions == #[trigger] crate::compose::sorted_records(
                        front + items_at(
                            detailed,
                            places(detailed.len()).filter(unlisted(detailed, entries)),
                        ),
                    )
                },
            None => {
                ||| exists|j: int|
                    0 <= j < detailed.len() && crate::response::version_coordinate(
                        #[trigger] detailed[j],
                    ) is None
                ||| exists|i: int|
                    0 <= i < entries.len() && !#[trigger] has_record(entries, i, detailed)
            },
        },
{
    let front = crate::compose::merged(
        entries,
        detailed,
        base_url,
        repo_key,
        publisher,
        name,
        flags,
    );
    let full = crate::compose::all_merged(
        entries,
        detailed,
        base_url,
        repo_key,
        publisher,
        name,
        flags,
    );
    if crate::gate::all_coordinates(detailed) && full {
        lemma_leftovers(detailed, entries, detailed.len());
        assert forall|i: int| 0 <= i < entries.len() implies records_version(
            #[trigger] front[i],
            entries,
            i,
            detailed,
            base_url,
            repo_key,
            publisher,
            name,
            flags,
        ) by {
            lemma_record(entries, i, detailed, base_url, repo_key, publisher, name, flags);
            assert(crate::compose::merged_at(
                entries,
                i,
                detailed,
                base_url,
                repo_key,
                publisher,
                name,
                flags,
            ) is Some);
        }
    } else if !full {
        let i = choose|i: int|
            0 <= i < entries.len() && (#[trigger] crate::compose::merged_at(
                entries,
                i,
                detailed,
                base_url,
                repo_key,
                publisher,
                name,
                flags,
            )) is None;
        lemma_repeated(entries, i);
        lemma_detail(detailed, crate::reading::named_coordinate(entries[i]));
        assert(!has_record(entries, i, detailed));
    }
}

/// Where every version may stand in a path and every detailed record has a coordinate, the versions
/// can be composed: as many as the history has, and one more for each detailed record that it does
/// not have.
pub proof fn histories_can_be_filled(
    entries: Seq<SkeletonEntry>,
    detailed: Seq<JsonValue>,
    base_url: Seq<char>,
    repo_key: Seq<char>,
    publisher: Seq<char>,
    name: Seq<char>,
    flags: u32,
)
    requires
        forall|j: int|
            0 <= j < detailed.len() ==> crate::response::version_coordinate(
                #[trigger] detailed[j],
            ) is Some,
        forall|i: int| 0 <= i < entries.len() ==> #[trigger] has_record(entries, i, detailed),
    ensures
        match crate::compose::composed_versions(
            entries,
            detailed,
            base_url,
            repo_key,
            publisher,
            name,
            flags,
        ) {
            Some(versions) => versions.len() == entries.len() + places(detailed.len()).filter(
                unlisted(detailed, entries),
            ).len(),
            None => false,
        },
{
    histories_are_filled_with_detail(
        entries,
        detailed,
        base_url,
        repo_key,
        publisher,
        name,
        flags,
    );
    if let Some(versions) = crate::compose::composed_versions(
        entries,
        detailed,
        base_url,
        repo_key,
        publisher,
        name,
        flags,
    ) {
        let back = items_at(
            detailed,
            places(detailed.len()).filter(unlisted(detailed, entries)),
        );
        let front = choose|front: Seq<JsonValue>|
            {
                &&& front.len() == entries.len()
                &&& forall|i: int|
                    0 <= i < entries.len() ==> records_version(
                        #[trigger] front[i],
                        entries,
                        i,
                        detailed,
                        base_url,
                        repo_key,
                        publisher,
                        name,
                        flags,
                    )
                &&& versions == #[trigger] crate::compose::sorted_records(front + back)
            };
        crate::compose::sorted_records_are_newest_first(front + back);
    }
}

/// An extension is composed exactly where it has an identity and its versions can be composed of
/// those that it lists; they take the place of its versions, and all else is as it was.
pub proof fn extensions_are_composed_of_their_versions(
    extension: JsonValue,
    entries: Seq<SkeletonEntry>,
    base_url: Seq<char>,
    repo_key: Seq<char>,
    flags: u32,
)
    ensures
        ({
            let listed = match extension.get("versions"@) {
                Some(JsonValue::List(versions)) => versions,
                _ => Seq::empty(),
            };
            let after = crate::compose::composed_extension(
                extension,
                entries,
                base_url,
                repo_key,
                flags,
            );
            match crate::response::identity_of(extension) {
                Some((publisher, name)) => match crate::compose::composed_versions(
                    entries,
                    listed,
                    base_url,
                    repo_key,
                    publisher,
                    name,
                    flags,
                ) {
                    Some(versions) => match after {
                        Some(after) => {
                            &&& after.get("versions"@) == Some(JsonValue::List(versions))
                            &&& forall|key: Seq<char>|
                                key != "versions"@ ==> #[trigger] after.get(key) == extension.get(
                                    key,
                                )
                        },
                        None => false,
                    },
                    None => after is None,
                },
                None => after is None,
            }
        }),
{
}

/// What is kept of a history are, of each platform and release channel, the thirty newest versions.
pub proof fn the_thirty_newest_are_kept(
    history: Seq<SkeletonEntry>,
    platform: Seq<char>,
    prerelease: bool,
)
    ensures
        ({
            let all = crate::reading::firsts(crate::skeleton::sorted_entries(history)).filter(
                crate::reading::in_channel(platform, prerelease),
            );
            crate::compose::kept_history(history).filter(
                crate::reading::in_channel(platform, prerelease),
            ) == (if all.len() <= 30 {
                all
            } else {
                all.take(30)
            })
        }),
{
    crate::reading::thirty_of_each_channel_are_kept(
        crate::skeleton::sorted_entries(history),
        platform,
        prerelease,
    );
}

/// Which versions are not withheld and the first such of their platform.
pub open spec fn first_left(entries: Seq<SkeletonEntry>, blocked: Seq<Seq<char>>) -> spec_fn(
    int,
) -> bool {
    |i: int|
        {
            &&& !blocked.contains(crate::reading::named_coordinate(entries[i]))
            &&& forall|k: int|
                0 <= k < i && !blocked.contains(
                    crate::reading::named_coordinate(#[trigger] entries[k]),
                ) ==> entries[k].target_platform != entries[i].target_platform
        }
}

proof fn lemma_served(entries: Seq<SkeletonEntry>, blocked: Seq<Seq<char>>, n: nat)
    requires
        n <= entries.len(),
    ensures
        crate::compose::served(entries.take(n as int), blocked) == items_at(
            entries,
            places(n).filter(first_left(entries, blocked)),
        ),
    decreases n,
{
    let p = first_left(entries, blocked);
    if n == 0 {
        reveal(Seq::filter);
        assert(places(0).filter(p) =~= Seq::empty());
        assert(items_at(entries, places(0).filter(p)) =~= Seq::<SkeletonEntry>::empty());
    } else {
        let m = (n - 1) as nat;
        lemma_served(entries, blocked, m);
        lemma_places(n, p);
        let part = entries.take(n as int);
        assert(part.drop_last() =~= entries.take(m as int));
        let entry = entries[m as int];
        let before = crate::compose::served(entries.take(m as int), blocked);
        crate::compose::the_newest_allowed_version_is_served(entries.take(m as int), blocked);
        let withheld = blocked.contains(crate::reading::named_coordinate(entry));
        let served = crate::compose::has_platform(before, entry.target_platform);
        if served {
            let k = choose|k: int|
                0 <= k < before.len() && (#[trigger] before[k]).target_platform
                    == entry.target_platform;
            assert(crate::compose::first_allowed(entries.take(m as int), blocked, before[k]));
            let i = choose|i: int| #[trigger]
                crate::compose::is_first_allowed(entries.take(m as int), blocked, before[k], i);
            assert(entries[i] == entries.take(m as int)[i]);
            assert(!blocked.contains(crate::reading::named_coordinate(entries[i])));
        } else {
            assert forall|k: int|
                0 <= k < m && !blocked.contains(
                    crate::reading::named_coordinate(#[trigger] entries[k]),
                ) implies entries[k].target_platform != entry.target_platform by {
                assert(entries[k] == entries.take(m as int)[k]);
                assert(crate::compose::has_platform(before, entries[k].target_platform));
            }
        }
        assert(p(m as int) == (!withheld && !served));
        let held = places(m).filter(p);
        if p(m as int) {
            assert(items_at(entries, held.push(m as int)) =~= items_at(entries, held).push(entry));
        }
    }
}

/// Behind the age gate, the versions served are those not withheld that are the first such of their
/// platform: all of them, in the order of the history.
pub proof fn the_first_left_of_each_platform_is_served(
    entries: Seq<SkeletonEntry>,
    blocked: Seq<Seq<char>>,
)
    ensures
        crate::compose::served(entries, blocked) == items_at(
            entries,
            places(entries.len()).filter(first_left(entries, blocked)),
        ),
{
    lemma_served(entries, blocked, entries.len());
    assert(entries.take(entries.len() as int) =~= entries);
}

/// Walking back gives an extension record one version record for every version served, each built
/// with everything that can be asked for, and leaves the rest of it as it was. There is nothing to
/// serve exactly where every version is withheld; a record without an identity, and a version that
/// may not stand in a path, are refused.
pub proof fn walking_back_builds_what_is_served(
    extension: JsonValue,
    entries: Seq<SkeletonEntry>,
    blocked: Seq<Seq<char>>,
    base_url: Seq<char>,
    repo_key: Seq<char>,
)
    ensures
        ({
            let kept = items_at(
                entries,
                places(entries.len()).filter(first_left(entries, blocked)),
            );
            let safe = forall|i: int|
                0 <= i < kept.len() ==> crate::coordinate::safe_segment(
                    (#[trigger] kept[i]).version,
                ) && crate::coordinate::safe_platform(kept[i].target_platform);
            let found = crate::compose::walked_back(
                extension,
                entries,
                blocked,
                base_url,
                repo_key,
            );
            match crate::response::identity_of(extension) {
                Some((publisher, name)) => if !safe {
                    found == Err::<Option<JsonValue>, GalleryError>(GalleryError::InvalidResponse)
                } else if kept.len() == 0 {
                    found == Ok::<Option<JsonValue>, GalleryError>(None)
                } else {
                    match found {
                        Ok(Some(after)) => {
                            &&& match after.list_at("versions"@) {
                                Some(versions) => {
                                    &&& versions.len() == kept.len()
                                    &&& forall|i: int|
                                        0 <= i < kept.len() ==> #[trigger] versions[i]
                                            == crate::skeleton::built_version(
                                            kept[i],
                                            crate::addresses::build_root(
                                                base_url,
                                                repo_key,
                                                publisher,
                                                name,
                                                kept[i].version,
                                                kept[i].target_platform,
                                            ),
                                            1023,
                                        )
                                },
                                None => false,
                            }
                            &&& forall|key: Seq<char>|
                                key != "versions"@ ==> #[trigger] after.get(key) == extension.get(
                                    key,
                                )
                        },
                        _ => false,
                    }
                },
                None => found == Err::<Option<JsonValue>, GalleryError>(
                    GalleryError::InvalidResponse,
                ),
            }
        }),
{
    the_first_left_of_each_platform_is_served(entries, blocked);
    let kept = crate::compose::served(entries, blocked);
    assert((511u32 | 512u32) == 1023u32) by (bit_vector);
    if let Some((publisher, name)) = crate::response::identity_of(extension) {
        if crate::compose::all_safe(kept) && kept.len() > 0 {
            crate::compose::walked_back_records_are_served_as_built(
                extension,
                entries,
                blocked,
                base_url,
                repo_key,
            );
            assert forall|i: int| 0 <= i < kept.len() implies crate::urls::asset_root(
                base_url,
                repo_key,
                publisher,
                name,
                (#[trigger] kept[i]).version,
                kept[i].target_platform,
            ) == crate::addresses::build_root(
                base_url,
                repo_key,
                publisher,
                name,
                kept[i].version,
                kept[i].target_platform,
            ) by {
                crate::addresses::assets_are_served_under_their_build(
                    base_url,
                    repo_key,
                    publisher,
                    name,
                    kept[i].version,
                    kept[i].target_platform,
                );
            }
        }
        let safe = forall|i: int|
            0 <= i < kept.len() ==> crate::coordinate::safe_segment((#[trigger] kept[i]).version)
                && crate::coordinate::safe_platform(kept[i].target_platform);
        if safe {
            assert forall|i: int| 0 <= i < kept.len() implies crate::history::safe_entry(
                #[trigger] kept[i],
            ) by {}
        } else {
            let i = choose|i: int|
                0 <= i < kept.len() && !(crate::coordinate::safe_segment(
                    (#[trigger] kept[i]).version,
                ) && crate::coordinate::safe_platform(kept[i].target_platform));
            assert(!crate::history::safe_entry(kept[i]));
        }
    }
}

/// The page of composed extensions holds those that the upstream knows: of two runs, those of the
/// first and, behind them, those of the second; of one slot, what it holds.
pub proof fn pages_hold_what_is_known(
    front: Seq<Option<Json>>,
    back: Seq<Option<Json>>,
    slot: Option<Json>,
)
    ensures
        crate::compose::present(front + back) == crate::compose::present(front)
            + crate::compose::present(back),
        crate::compose::present(seq![slot]) == (match slot {
            Some(extension) => seq![extension@],
            None => Seq::empty(),
        }),
    decreases back.len(),
{
    reveal_with_fuel(crate::compose::present, 2);
    assert(seq![slot].drop_last() =~= Seq::empty());
    assert(seq![slot].last() == slot);
    if let Some(extension) = slot {
        assert(crate::compose::present(seq![slot]) =~= seq![extension@]);
    }
    if back.len() == 0 {
        assert(front + back =~= front);
        assert(crate::compose::present(front) + crate::compose::present(back)
            =~= crate::compose::present(front));
    } else {
        pages_hold_what_is_known(front, back.drop_last(), slot);
        assert((front + back).drop_last() =~= front + back.drop_last());
        assert((front + back).last() == back.last());
        assert(crate::compose::present(front + back) =~= crate::compose::present(front)
            + crate::compose::present(back));
    }
}

} // verus!
