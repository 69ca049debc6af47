//! What a bounded version history promises: whose versions it holds, how many of them, in what
//! order, and that a version record built from it says the same as the history did.

use vstd::prelude::*;

use crate::bounds::GALLERY_VERSIONS_PER_CHANNEL;
use crate::json::JsonValue;
use crate::skeleton::{
    GallerySkeletonWireExtension, GallerySkeletonWireResult, GallerySkeletonWireVersion,
    SkeletonEntry,
};

verus! {

/// Whether an entry is what is kept of some version in the list.
pub open spec fn kept_of_versions(
    versions: Seq<GallerySkeletonWireVersion>,
    entry: SkeletonEntry,
) -> bool {
    exists|i: int|
        0 <= i < versions.len() && crate::skeleton::entry_of(#[trigger] versions[i]) == Some(entry)
}

/// Whether an entry is what is kept of a version of an extension in the list that is `package`.
pub open spec fn kept_of_extensions(
    extensions: Seq<GallerySkeletonWireExtension>,
    package: Seq<char>,
    entry: SkeletonEntry,
) -> bool {
    exists|i: int|
        0 <= i < extensions.len() && crate::skeleton::wire_package(#[trigger] extensions[i])
            == package && kept_of_versions(extensions[i].versions@, entry)
}

/// Whether an entry is what is kept of a version of `package` in some result.
pub open spec fn kept_of_results(
    results: Seq<GallerySkeletonWireResult>,
    package: Seq<char>,
    entry: SkeletonEntry,
) -> bool {
    exists|i: int|
        0 <= i < results.len() && kept_of_extensions(
            (#[trigger] results[i]).extensions@,
            package,
            entry,
        )
}

proof fn lemma_versions(versions: Seq<GallerySkeletonWireVersion>, k: int)
    requires
        0 <= k < crate::skeleton::entries_of(versions).len(),
    ensures
        kept_of_versions(versions, crate::skeleton::entries_of(versions)[k]),
    decreases versions.len(),
{
    let front = versions.drop_last();
    let entry = crate::skeleton::entries_of(versions)[k];
    if k < crate::skeleton::entries_of(front).len() {
        lemma_versions(front, k);
        let i = choose|i: int|
            0 <= i < front.len() && crate::skeleton::entry_of(#[trigger] front[i]) == Some(entry);
        assert(versions[i] == front[i]);
    } else {
        assert(crate::skeleton::entry_of(versions[versions.len() - 1]) == Some(entry));
    }
}

proof fn lemma_extensions(
    extensions: Seq<GallerySkeletonWireExtension>,
    package: Seq<char>,
    k: int,
)
    requires
        0 <= k < crate::skeleton::extension_entries(extensions, package).len(),
    ensures
        kept_of_extensions(
            extensions,
            package,
            crate::skeleton::extension_entries(extensions, package)[k],
        ),
    decreases extensions.len(),
{
    let front = extensions.drop_last();
    let before = crate::skeleton::extension_entries(front, package);
    let entry = crate::skeleton::extension_entries(extensions, package)[k];
    if k < before.len() {
        lemma_extensions(front, package, k);
        let i = choose|i: int|
            0 <= i < front.len() && crate::skeleton::wire_package(#[trigger] front[i]) == package
                && kept_of_versions(front[i].versions@, entry);
        assert(extensions[i] == front[i]);
    } else {
        lemma_versions(extensions.last().versions@, k - before.len());
        assert(crate::skeleton::wire_package(extensions[extensions.len() - 1]) == package);
    }
}

/// A history holds versions of the extension it was asked for only, whatever else the upstream
/// named.
pub proof fn histories_hold_one_extension(
    results: Seq<GallerySkeletonWireResult>,
    package: Seq<char>,
    k: int,
)
    requires
        0 <= k < crate::skeleton::result_entries(results, package).len(),
    ensures
        kept_of_results(results, package, crate::skeleton::result_entries(results, package)[k]),
    decreases results.len(),
{
    let front = results.drop_last();
    let before = crate::skeleton::result_entries(front, package);
    let entry = crate::skeleton::result_entries(results, package)[k];
    if k < before.len() {
        histories_hold_one_extension(front, package, k);
        let i = choose|i: int|
            0 <= i < front.len() && kept_of_extensions(
                (#[trigger] front[i]).extensions@,
                package,
                entry,
            );
        assert(results[i] == front[i]);
    } else {
        lemma_extensions(results.last().extensions@, package, k - before.len());
        assert(kept_of_extensions(results[results.len() - 1].extensions@, package, entry));
    }
}

/// Whether the name and the platform of an entry may stand in a path.
pub open spec fn safe_entry(entry: SkeletonEntry) -> bool {
    crate::coordinate::safe_segment(entry.version) && crate::coordinate::safe_platform(
        entry.target_platform,
    )
}

/// Every version of a history may stand in a path.
pub proof fn histories_are_safe(results: Seq<GallerySkeletonWireResult>, package: Seq<char>, k: int)
    requires
        0 <= k < crate::skeleton::result_entries(results, package).len(),
    ensures
        safe_entry(crate::skeleton::result_entries(results, package)[k]),
{
    histories_hold_one_extension(results, package, k);
}

/// Whether `kept` holds entries of `entries` only, in their order.
pub open spec fn subsequence(entries: Seq<SkeletonEntry>, kept: Seq<SkeletonEntry>) -> bool
    decreases entries.len(),
{
    if kept.len() == 0 {
        true
    } else if entries.len() == 0 {
        false
    } else if entries.last() == kept.last() && subsequence(entries.drop_last(), kept.drop_last()) {
        true
    } else {
        subsequence(entries.drop_last(), kept)
    }
}

/// What is kept of a history holds its versions in its order, at most
/// [`GALLERY_VERSIONS_PER_CHANNEL`] of each platform and release channel, and each coordinate
/// once.
pub proof fn kept_versions_are_bounded(
    entries: Seq<SkeletonEntry>,
    platform: Seq<char>,
    prerelease: bool,
)
    ensures
        subsequence(entries, crate::skeleton::bounded(entries)),
        crate::skeleton::channel_count(crate::skeleton::bounded(entries), platform, prerelease)
            <= GALLERY_VERSIONS_PER_CHANNEL,
        forall|i: int, j: int|
            0 <= i < j < crate::skeleton::bounded(entries).len()
                ==> crate::skeleton::entry_coordinate(
                #[trigger] crate::skeleton::bounded(entries)[i],
            ) != crate::skeleton::entry_coordinate(#[trigger] crate::skeleton::bounded(entries)[j]),
        forall|i: int|
            0 <= i < crate::skeleton::bounded(entries).len() ==> entries.contains(
                #[trigger] crate::skeleton::bounded(entries)[i],
            ),
    decreases entries.len(),
{
    if entries.len() > 0 {
        let front = entries.drop_last();
        let before = crate::skeleton::bounded(front);
        let kept = crate::skeleton::bounded(entries);
        kept_versions_are_bounded(front, platform, prerelease);
        lemma_subsequence_skips(front, entries.last(), before);
        assert(front.push(entries.last()) =~= entries);
        if kept != before {
            assert(kept.drop_last() =~= before);
            assert forall|i: int, j: int| 0 <= i < j < kept.len() implies
                crate::skeleton::entry_coordinate(#[trigger] kept[i])
                != crate::skeleton::entry_coordinate(#[trigger] kept[j]) by {
                if j == before.len() {
                    assert(front.contains(before[i]));
                    let k = choose|k: int| 0 <= k < front.len() && front[k] == before[i];
                    assert(crate::skeleton::entry_coordinate(front[k])
                        != crate::skeleton::entry_coordinate(entries.last()));
                }
            }
        }
        assert forall|i: int| 0 <= i < kept.len() implies entries.contains(#[trigger] kept[i]) by {
            if i < before.len() {
                assert(front.contains(before[i]));
                let k = choose|k: int| 0 <= k < front.len() && front[k] == before[i];
                assert(entries[k] == kept[i]);
            } else {
                assert(entries[entries.len() - 1] == kept[i]);
            }
        }
    }
}

proof fn lemma_subsequence_skips(
    entries: Seq<SkeletonEntry>,
    entry: SkeletonEntry,
    kept: Seq<SkeletonEntry>,
)
    requires
        subsequence(entries, kept),
    ensures
        subsequence(entries.push(entry), kept),
{
    assert(entries.push(entry).drop_last() =~= entries);
}

/// What is kept of a history is kept when it goes on.
proof fn lemma_kept_grows(entries: Seq<SkeletonEntry>, n: int, platform: Seq<char>, prerelease: bool)
    requires
        0 <= n <= entries.len(),
    ensures
        crate::skeleton::bounded(entries.take(n)).is_prefix_of(crate::skeleton::bounded(entries)),
        crate::skeleton::channel_count(
            crate::skeleton::bounded(entries.take(n)),
            platform,
            prerelease,
        ) <= crate::skeleton::channel_count(
            crate::skeleton::bounded(entries),
            platform,
            prerelease,
        ),
    decreases entries.len(),
{
    if n == entries.len() {
        assert(entries.take(n) =~= entries);
    } else {
        let front = entries.drop_last();
        lemma_kept_grows(front, n, platform, prerelease);
        assert(front.take(n) =~= entries.take(n));
        let before = crate::skeleton::bounded(front);
        let kept = crate::skeleton::bounded(entries);
        if kept != before {
            assert(kept.drop_last() =~= before);
        }
    }
}

/// A version that is the first with its coordinate is kept, unless its platform and release
/// channel are full of versions that stand before it. So of each platform and channel that has
/// such a version, one is kept.
pub proof fn the_newest_of_each_channel_is_kept(entries: Seq<SkeletonEntry>, i: int)
    requires
        0 <= i < entries.len(),
        !crate::skeleton::has_coordinate(
            entries.take(i),
            crate::skeleton::entry_coordinate(entries[i]),
        ),
    ensures
        crate::skeleton::bounded(entries).contains(entries[i]) || crate::skeleton::channel_count(
            crate::skeleton::bounded(entries.take(i)),
            entries[i].target_platform,
            entries[i].prerelease,
        ) == GALLERY_VERSIONS_PER_CHANNEL,
        crate::skeleton::bounded(entries.take(i)).is_prefix_of(crate::skeleton::bounded(entries)),
        crate::skeleton::channel_count(
            crate::skeleton::bounded(entries),
            entries[i].target_platform,
            entries[i].prerelease,
        ) >= 1,
{
    let entry = entries[i];
    let with = entries.take(i + 1);
    assert(with.drop_last() =~= entries.take(i));
    let before = crate::skeleton::bounded(entries.take(i));
    lemma_kept_grows(entries, i, entry.target_platform, entry.prerelease);
    lemma_kept_grows(entries, i + 1, entry.target_platform, entry.prerelease);
    kept_versions_are_bounded(entries.take(i), entry.target_platform, entry.prerelease);
    if crate::skeleton::channel_count(before, entry.target_platform, entry.prerelease)
        < GALLERY_VERSIONS_PER_CHANNEL {
        let kept = crate::skeleton::bounded(with);
        assert(kept == before.push(entry));
        assert(kept.drop_last() =~= before);
        assert(crate::skeleton::bounded(entries)[before.len() as int] == entry);
    }
}

/// Whether no entry is listed behind one that it should be ahead of.
pub open spec fn newest_come_first(entries: Seq<SkeletonEntry>) -> bool {
    forall|i: int, j: int|
        0 <= i < j < entries.len() ==> !crate::time::ahead(
            (#[trigger] entries[j]).last_updated,
            (#[trigger] entries[i]).last_updated,
        )
}

/// A sorted history has all of its versions, newest first.
pub proof fn sorted_histories_are_newest_first(entries: Seq<SkeletonEntry>)
    ensures
        newest_come_first(crate::skeleton::sorted_entries(entries)),
        crate::skeleton::sorted_entries(entries).len() == entries.len(),
        forall|i: int|
            0 <= i < entries.len() ==> crate::skeleton::sorted_entries(entries).contains(
                #[trigger] entries[i],
            ),
        forall|i: int|
            0 <= i < entries.len() ==> entries.contains(
                #[trigger] crate::skeleton::sorted_entries(entries)[i],
            ),
{
    let dates = crate::skeleton::entry_dates(entries);
    let order = crate::time::newest_first(dates);
    let sorted = crate::skeleton::sorted_entries(entries);
    crate::time::newest_first_is_listed(dates);
    crate::time::lemma_listed_all(dates, order);
    assert forall|i: int, j: int| 0 <= i < j < sorted.len() implies !crate::time::ahead(
        (#[trigger] sorted[j]).last_updated,
        (#[trigger] sorted[i]).last_updated,
    ) by {
        assert(crate::time::precedes(dates, order[i], order[j]));
        assert(0 <= order[i] < dates.len());
        assert(0 <= order[j] < dates.len());
    }
    assert forall|i: int| 0 <= i < entries.len() implies sorted.contains(#[trigger] entries[i]) by {
        assert(order.contains(i));
        let p = choose|p: int| 0 <= p < order.len() && order[p] == i;
        assert(sorted[p] == entries[i]);
    }
    assert forall|i: int| 0 <= i < entries.len() implies entries.contains(#[trigger] sorted[i]) by {
        assert(0 <= order[i] < dates.len());
        assert(entries[order[i]] == sorted[i]);
    }
}

proof fn lemma_subsequence_order(entries: Seq<SkeletonEntry>, kept: Seq<SkeletonEntry>)
    requires
        newest_come_first(entries),
        subsequence(entries, kept),
    ensures
        newest_come_first(kept),
        forall|i: int| 0 <= i < kept.len() ==> entries.contains(#[trigger] kept[i]),
    decreases entries.len(),
{
    if kept.len() > 0 {
        let front = entries.drop_last();
        assert(newest_come_first(front)) by {
            assert forall|i: int, j: int| 0 <= i < j < front.len() implies !crate::time::ahead(
                (#[trigger] front[j]).last_updated,
                (#[trigger] front[i]).last_updated,
            ) by {
                assert(entries[i] == front[i] && entries[j] == front[j]);
            }
        }
        if entries.last() == kept.last() && subsequence(front, kept.drop_last()) {
            let before = kept.drop_last();
            lemma_subsequence_order(front, before);
            assert forall|i: int, j: int| 0 <= i < j < kept.len() implies !crate::time::ahead(
                (#[trigger] kept[j]).last_updated,
                (#[trigger] kept[i]).last_updated,
            ) by {
                assert(before[i] == kept[i]);
                if j < before.len() {
                    assert(before[j] == kept[j]);
                } else {
                    assert(front.contains(before[i]));
                    let k = choose|k: int| 0 <= k < front.len() && front[k] == before[i];
                    assert(entries[k] == kept[i]);
                    assert(entries[entries.len() - 1] == kept[j]);
                }
            }
            assert forall|i: int| 0 <= i < kept.len() implies entries.contains(
                #[trigger] kept[i],
            ) by {
                if i < before.len() {
                    assert(front.contains(before[i]));
                    let k = choose|k: int| 0 <= k < front.len() && front[k] == before[i];
                    assert(entries[k] == kept[i]);
                } else {
                    assert(entries[entries.len() - 1] == kept[i]);
                }
            }
        } else {
            lemma_subsequence_order(front, kept);
            assert forall|i: int| 0 <= i < kept.len() implies entries.contains(
                #[trigger] kept[i],
            ) by {
                assert(front.contains(kept[i]));
                let k = choose|k: int| 0 <= k < front.len() && front[k] == kept[i];
                assert(entries[k] == kept[i]);
            }
        }
    }
}

/// What is kept of a sorted history is newest first, and of the history.
pub proof fn kept_versions_are_newest_first(entries: Seq<SkeletonEntry>)
    ensures
        newest_come_first(crate::skeleton::bounded(crate::skeleton::sorted_entries(entries))),
        forall|i: int|
            0 <= i < crate::skeleton::bounded(crate::skeleton::sorted_entries(entries)).len()
                ==> entries.contains(
                #[trigger] crate::skeleton::bounded(crate::skeleton::sorted_entries(entries))[i],
            ),
{
    let sorted = crate::skeleton::sorted_entries(entries);
    let kept = crate::skeleton::bounded(sorted);
    sorted_histories_are_newest_first(entries);
    kept_versions_are_bounded(sorted, Seq::empty(), false);
    lemma_subsequence_order(sorted, kept);
    assert forall|i: int| 0 <= i < kept.len() implies entries.contains(#[trigger] kept[i]) by {
        assert(sorted.contains(kept[i]));
        let k = choose|k: int| 0 <= k < sorted.len() && sorted[k] == kept[i];
        assert(entries.contains(sorted[k]));
    }
}

/// A built version record has the coordinate of the version that it was built from.
pub proof fn built_versions_keep_their_coordinate(entry: SkeletonEntry, root: Seq<char>, flags: u32)
    requires
        safe_entry(entry),
    ensures
        crate::response::version_coordinate(crate::skeleton::built_version(entry, root, flags))
            == Some(crate::skeleton::entry_coordinate(entry)),
{
    let record = crate::skeleton::built_version(entry, root, flags);
    crate::skeleton::lemma_built_member(entry, root, flags, "version"@);
    crate::skeleton::lemma_built_member(entry, root, flags, "targetPlatform"@);
    crate::coordinate::safe_platforms_are_normal(entry.target_platform);
    crate::coordinate::normalizing_a_platform_is_idempotent(None);
    assert(crate::coordinate::platform_of(record.text_at("targetPlatform"@))
        == entry.target_platform);
}

proof fn lemma_ascii_segment(text: Seq<char>)
    requires
        2 < text.len() <= 255,
        forall|i: int|
            0 <= i < text.len() ==> ('A' <= #[trigger] text[i] <= 'Z' || 'a' <= text[i] <= 'z'
                || text[i] == '.'),
    ensures
        crate::coordinate::safe_segment(text),
{
    assert(vstd::utf8::is_ascii_chars(text));
    vstd::utf8::is_ascii_chars_encode_utf8(text);
    reveal_strlit(".");
    reveal_strlit("..");
    assert("."@.len() == 1);
    assert(".."@.len() == 2);
}

proof fn lemma_built_file(root: Seq<char>, asset_type: Seq<char>)
    requires
        crate::coordinate::safe_segment(asset_type),
    ensures
        crate::response::rewritten_file(crate::skeleton::file_value(root, asset_type), root)
            == Some(crate::skeleton::file_value(root, asset_type)),
{
    reveal_strlit("assetType");
    reveal_strlit("source");
    assert("assetType"@.len() == 9);
    assert("source"@.len() == 6);
    let file = crate::skeleton::file_value(root, asset_type);
    let source = crate::response::asset_source(root, asset_type);
    assert(file.text_at("assetType"@) == Some(asset_type));
    assert(file.get("source"@) == Some(JsonValue::Text(source)));
    assert(file.with("source"@, JsonValue::Text(source))->Object_0 =~= file->Object_0);
}

/// The rewrite leaves a built version record as it is: what is built here and what is rewritten
/// refer to assets in the same way.
pub proof fn built_versions_need_no_rewrite(
    entry: SkeletonEntry,
    flags: u32,
    base_url: Seq<char>,
    repo_key: Seq<char>,
    publisher: Seq<char>,
    name: Seq<char>,
)
    requires
        safe_entry(entry),
    ensures
        ({
            let root = crate::urls::asset_root(
                base_url,
                repo_key,
                publisher,
                name,
                entry.version,
                entry.target_platform,
            );
            let record = crate::skeleton::built_version(entry, root, flags);
            crate::response::rewritten_version(record, base_url, repo_key, publisher, name) == Some(
                record,
            )
        }),
{
    let root = crate::urls::asset_root(
        base_url,
        repo_key,
        publisher,
        name,
        entry.version,
        entry.target_platform,
    );
    let record = crate::skeleton::built_version(entry, root, flags);
    crate::skeleton::lemma_built_member(entry, root, flags, "version"@);
    crate::skeleton::lemma_built_member(entry, root, flags, "targetPlatform"@);
    crate::coordinate::safe_platforms_are_normal(entry.target_platform);
    crate::coordinate::normalizing_a_platform_is_idempotent(None);
    assert(crate::coordinate::platform_of(record.text_at("targetPlatform"@))
        == entry.target_platform);
    assert(crate::response::version_root(record, base_url, repo_key, publisher, name) == Some(root));
    lemma_built_references(entry, root, flags);
}

proof fn lemma_built_references(entry: SkeletonEntry, root: Seq<char>, flags: u32)
    ensures
        ({
            let record = crate::skeleton::built_version(entry, root, flags);
            &&& crate::response::with_reference(record, "assetUri"@, root) == Some(record)
            &&& crate::response::with_reference(record, "fallbackAssetUri"@, root) == Some(record)
            &&& crate::response::with_files(record, root) == Some(record)
        }),
{
    reveal_strlit("version");
    reveal_strlit("properties");
    reveal_strlit("targetPlatform");
    reveal_strlit("lastUpdated");
    reveal_strlit("assetUri");
    reveal_strlit("fallbackAssetUri");
    reveal_strlit("files");
    assert("version"@.len() == 7);
    assert("properties"@.len() == 10);
    assert("targetPlatform"@.len() == 14);
    assert("lastUpdated"@.len() == 11);
    assert("assetUri"@.len() == 8);
    assert("fallbackAssetUri"@.len() == 16);
    assert("files"@.len() == 5);
    let record = crate::skeleton::built_version(entry, root, flags);
    let files = crate::skeleton::built_files(root);
    let f = crate::response::file_rewrite(root);
    if record.get("assetUri"@) is Some {
        assert(record.with("assetUri"@, JsonValue::Text(root))->Object_0 =~= record->Object_0);
        assert(record.with("fallbackAssetUri"@, JsonValue::Text(root))->Object_0
            =~= record->Object_0);
    }
    if record.get("files"@) is Some {
        assert(record.list_at("files"@) == Some(files));
        reveal_strlit("Microsoft.VisualStudio.Services.VSIXPackage");
        reveal_strlit("Microsoft.VisualStudio.Code.Manifest");
        reveal_strlit("Microsoft.VisualStudio.Services.Content.Details");
        reveal_strlit("Microsoft.VisualStudio.Services.Icons.Default");
        lemma_ascii_segment("Microsoft.VisualStudio.Services.VSIXPackage"@);
        lemma_ascii_segment("Microsoft.VisualStudio.Code.Manifest"@);
        lemma_ascii_segment("Microsoft.VisualStudio.Services.Content.Details"@);
        lemma_ascii_segment("Microsoft.VisualStudio.Services.Icons.Default"@);
        lemma_built_file(root, "Microsoft.VisualStudio.Services.VSIXPackage"@);
        lemma_built_file(root, "Microsoft.VisualStudio.Code.Manifest"@);
        lemma_built_file(root, "Microsoft.VisualStudio.Services.Content.Details"@);
        lemma_built_file(root, "Microsoft.VisualStudio.Services.Icons.Default"@);
        assert forall|i: int| 0 <= i < files.len() implies (#[trigger] f(files[i])) == Some(
            files[i],
        ) by {}
        assert(crate::response::map_all(files, f)->Some_0 =~= files);
        assert(record.with("files"@, JsonValue::List(files))->Object_0 =~= record->Object_0);
    }
}

} // verus!
