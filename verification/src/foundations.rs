//! Laws on the foundations: texts, moments, documents, errors and bounds, said of what goes in and
//! what comes out.

use vstd::prelude::*;

use crate::bounds::{
    metadata_limits, skeleton_limits, MetadataPermit, MetadataWorkingSetLimits, ProxyMetadataBudget,
};
use crate::error::{private_gallery_forbidden, unsupported_gallery_repo_type, GalleryError};
use crate::gate::GateCandidate;
use crate::json::{Json, JsonValue};
use crate::query::{
    document_flags, gallery_query_body, gallery_query_flags, replace_flags, GalleryCriterion,
};
use crate::repository::{RepoInfo, RequestBaseUrl};
use crate::skeleton::{
    find_gallery_exact_version, sort_skeleton_newest_first, GallerySkeletonVersion,
};
use crate::text::{
    chars_of, contains_text, ends_with, first_segment, is_control, is_empty, is_white_space,
    last_segment, same_text, text_of, to_ascii_lowercase, trim, trim_trailing,
};
use crate::time::{gallery_parse_last_updated, newest_first_order, PublishTime};
use crate::urls::{
    checksum_sha256, gallery_version_asset_base, legacy_download_upstream_path, openvsx_asset_url,
};

verus! {

/// A list is seen as its items are, each in its place; what is not there is not seen.
pub proof fn lists_are_seen_item_by_item(
    items: Seq<Json>,
    versions: Seq<GallerySkeletonVersion>,
    candidates: Seq<GateCandidate>,
    criteria: Seq<GalleryCriterion>,
    verdicts: Seq<Vec<String>>,
    item: Option<Json>,
    time: Option<PublishTime>,
)
    ensures
        crate::json::json_views(items).len() == items.len(),
        forall|i: int|
            0 <= i < items.len() ==> #[trigger] crate::json::json_views(items)[i] == items[i]@,
        crate::skeleton::skeleton_views(versions).len() == versions.len(),
        forall|i: int|
            0 <= i < versions.len() ==> #[trigger] crate::skeleton::skeleton_views(versions)[i]
                == versions[i]@,
        crate::gate::candidate_views(candidates).len() == candidates.len(),
        forall|i: int|
            0 <= i < candidates.len() ==> #[trigger] crate::gate::candidate_views(candidates)[i]
                == candidates[i]@,
        crate::query::criterion_views(criteria).len() == criteria.len(),
        forall|i: int|
            0 <= i < criteria.len() ==> #[trigger] crate::query::criterion_views(criteria)[i]
                == criteria[i]@,
        crate::gate::verdict_views(verdicts).len() == verdicts.len(),
        forall|i: int, j: int|
            0 <= i < verdicts.len() && 0 <= j < verdicts[i]@.len() ==> {
                &&& (#[trigger] crate::gate::verdict_views(verdicts)[i]).len() == verdicts[i]@.len()
                &&& crate::gate::verdict_views(verdicts)[i][j] == (#[trigger] verdicts[i]@[j])@
            },
        match item {
            Some(json) => crate::json::json_view_opt(item) == Some(json@),
            None => crate::json::json_view_opt(item) is None,
        },
        match time {
            Some(moment) => crate::time::time_view(time) == Some(moment@),
            None => crate::time::time_view(time) is None,
        },
{
}

/// A document is seen as what it is made of: a list as its items, an object as its members, of
/// which the first with a key counts.
pub proof fn documents_are_seen_as_made(document: Json)
    ensures
        match document {
            Json::Null => document@ == JsonValue::Null,
            Json::Bool(b) => document@ == JsonValue::Bool(b),
            Json::Number(n) => document@ == JsonValue::Number(n),
            Json::Text(text) => document@ == JsonValue::Text(text@),
            Json::List(items) => document@ == JsonValue::List(crate::json::json_views(items@)),
            Json::Object(_) => document@ is Object,
        },
{
    if let Json::List(items) = document {
        crate::json::lemma_list_view(items);
    }
}

/// A text is trimmed of the white space at its ends and of nothing else.
pub proof fn texts_are_trimmed_at_their_ends(text: &str, inner: String)
    requires
        call_ensures(trim, (text,), inner),
    ensures
        exists|before: Seq<char>, after: Seq<char>|
            crate::words::blank(before) && crate::words::blank(after) && text@ == #[trigger] (before
                + inner@ + after),
        inner@.len() > 0 ==> !crate::words::is_blank(inner@[0]) && !crate::words::is_blank(
            inner@.last(),
        ),
{
    crate::words::trimming_takes_white_space_only(text@);
}

/// A text is made small letter by letter.
pub proof fn texts_are_lowered_letter_by_letter(text: &str, lower: String)
    requires
        call_ensures(to_ascii_lowercase, (text,), lower),
    ensures
        lower@.len() == text@.len(),
        forall|i: int|
            0 <= i < text@.len() ==> #[trigger] lower@[i] as int == (if 0x41 <= text@[i] as int
                <= 0x5a {
                text@[i] as int + 32
            } else {
                text@[i] as int
            }),
{
    crate::words::lowering_changes_capitals_only(text@);
}

/// A run of a character is taken off the end of a text, and only there.
pub proof fn runs_are_taken_off_the_end(text: &str, c: char, rest: String)
    requires
        call_ensures(trim_trailing, (text, c), rest),
    ensures
        rest@.len() <= text@.len(),
        text@.take(rest@.len() as int) == rest@,
        forall|i: int| rest@.len() <= i < text@.len() ==> #[trigger] text@[i] == c,
        rest@.len() > 0 ==> rest@.last() != c,
{
    crate::words::only_the_run_at_the_end_is_taken(text@, c);
}

/// A text ends with another, or holds it, exactly where something around it makes up the rest; two
/// texts are the same, and one is empty, exactly where their characters say so.
pub proof fn texts_are_compared_by_their_characters(
    text: &str,
    other: &str,
    ends: bool,
    contains: bool,
    same: bool,
    empty: bool,
)
    requires
        call_ensures(ends_with, (text, other), ends),
        call_ensures(contains_text, (text, other), contains),
        call_ensures(same_text, (text, other), same),
        call_ensures(is_empty, (text,), empty),
    ensures
        ends <==> exists|before: Seq<char>| text@ == #[trigger] (before + other@),
        contains <==> exists|before: Seq<char>, after: Seq<char>|
            text@ == #[trigger] (before + other@ + after),
        same <==> text@ == other@,
        empty <==> text@.len() == 0,
{
    crate::words::suffixes_end_a_text(text@, other@);
    crate::words::infixes_stand_in_a_text(text@, other@);
}

/// The last segment of a text is what follows its last separator, and the first what precedes its
/// first; without one, both are the whole text.
pub proof fn segments_stand_between_separators(
    text: &str,
    c: char,
    last: String,
    first: String,
)
    requires
        call_ensures(last_segment, (text, c), last),
        call_ensures(first_segment, (text, c), first),
    ensures
        !last@.contains(c),
        !first@.contains(c),
        last@ == text@ || exists|before: Seq<char>| text@ == #[trigger] (before + seq![c] + last@),
        first@ == text@ || exists|after: Seq<char>| text@ == #[trigger] (first@ + seq![c] + after),
{
    let s = text@;
    crate::words::last_segments_follow_the_last_separator(s, c);
    crate::words::first_segments_precede_the_first_separator(s, c);
    if last@.len() < s.len() {
        let before = s.take(s.len() - last@.len() - 1);
        assert(s =~= before + seq![c] + last@);
    } else {
        assert(s.skip(0) =~= s);
    }
    if first@.len() < s.len() {
        let after = s.skip(first@.len() as int + 1);
        assert(s =~= first@ + seq![c] + after);
    } else {
        assert(s.take(s.len() as int) =~= s);
    }
}

/// The characters of a text are its own, and a text made of a range of characters holds them;
/// white space and control characters are told by their code points.
pub proof fn characters_are_told_by_their_code_points(
    text: &str,
    chars: Vec<char>,
    given: &Vec<char>,
    from: usize,
    to: usize,
    made: String,
    c: char,
    white: bool,
    control: bool,
)
    requires
        from <= to <= given@.len(),
        call_ensures(chars_of, (text,), chars),
        call_ensures(text_of, (given, from, to), made),
        call_ensures(is_white_space, (c,), white),
        call_ensures(is_control, (c,), control),
    ensures
        chars@ == text@,
        made@.len() == to - from,
        forall|i: int| 0 <= i < made@.len() ==> #[trigger] made@[i] == given@[from + i],
        white <==> crate::words::is_blank(c),
        control <==> crate::words::is_control_code(c),
{
}

/// Moments are put newest first, undated ones last, and those of one date in their order.
pub proof fn moments_are_put_newest_first(dates: &Vec<Option<PublishTime>>, order: Vec<usize>)
    requires
        call_ensures(newest_first_order, (dates,), order),
    ensures
        order@.len() == dates@.len(),
        forall|p: int| 0 <= p < order@.len() ==> #[trigger] order@[p] < dates@.len(),
        forall|p: int, q: int|
            0 <= p < q < order@.len() ==> {
                let a = crate::time::time_view(dates@[#[trigger] order@[p] as int]);
                let b = crate::time::time_view(dates@[#[trigger] order@[q] as int]);
                &&& crate::reading::no_older(a, b)
                &&& a == b ==> order@[p] < order@[q]
            },
{
    let views = crate::time::date_views(dates@);
    let places = crate::time::places(order@);
    crate::reading::newer_comes_first_and_ties_keep_their_order(views);
    assert(places.len() == order@.len());
    assert forall|p: int| 0 <= p < order@.len() implies #[trigger] order@[p] < dates@.len() by {
        assert(places[p] == order@[p]);
    }
    assert forall|p: int, q: int| 0 <= p < q < order@.len() implies {
        let a = crate::time::time_view(dates@[#[trigger] order@[p] as int]);
        let b = crate::time::time_view(dates@[#[trigger] order@[q] as int]);
        &&& crate::reading::no_older(a, b)
        &&& a == b ==> order@[p] < order@[q]
    } by {
        assert(places[p] == order@[p]);
        assert(places[q] == order@[q]);
    }
}

/// A moment is read of a text where it names one, and a history is put newest first.
pub proof fn moments_are_read_of_their_texts(
    value: &str,
    time: Option<PublishTime>,
    versions: Vec<GallerySkeletonVersion>,
    sorted: Vec<GallerySkeletonVersion>,
)
    requires
        call_ensures(gallery_parse_last_updated, (value,), time),
        call_ensures(sort_skeleton_newest_first, (versions,), sorted),
    ensures
        match time {
            Some(moment) => crate::time::rfc3339_instant(value@) == Some(moment@),
            None => crate::time::rfc3339_instant(value@) is None,
        },
        ({
            let entries = crate::skeleton::skeleton_views(versions@);
            let order = crate::time::newest_first(
                Seq::new(entries.len(), |i: int| entries[i].last_updated),
            );
            &&& sorted@.len() == versions@.len()
            &&& order.len() == versions@.len()
            &&& forall|p: int|
                0 <= p < order.len() ==> (#[trigger] sorted@[p])@ == entries[order[p]]
        }),
{
    let entries = crate::skeleton::skeleton_views(versions@);
    let dates = Seq::new(entries.len(), |i: int| entries[i].last_updated);
    let order = crate::time::newest_first(dates);
    crate::reading::histories_are_sorted_by_their_dates(entries);
    crate::reading::newer_comes_first_and_ties_keep_their_order(dates);
    let views = crate::skeleton::skeleton_views(sorted@);
    assert(views.len() == sorted@.len());
    assert forall|p: int| 0 <= p < order.len() implies (#[trigger] sorted@[p])@
        == entries[order[p]] by {
        assert(views[p] == sorted@[p]@);
        assert(crate::skeleton::sorted_entries(entries)[p] == entries[order[p]]);
    }
}

/// A build is found in a history by its name and the platform that is meant.
pub proof fn builds_are_found_by_name_and_platform(
    skeleton: &Vec<GallerySkeletonVersion>,
    version: &str,
    target_platform: &str,
    found: Option<Option<PublishTime>>,
)
    requires
        call_ensures(find_gallery_exact_version, (skeleton, version, target_platform), found),
    ensures
        ({
            let entries = crate::skeleton::skeleton_views(skeleton@);
            let platform = crate::coordinate::platform_of(Some(target_platform@));
            match found {
                Some(date) => exists|i: int|
                    0 <= i < entries.len() && (#[trigger] entries[i]).version == version@
                        && entries[i].target_platform == platform && entries[i].last_updated
                        == crate::time::time_view(date),
                None => forall|i: int|
                    0 <= i < entries.len() ==> !((#[trigger] entries[i]).version == version@
                        && entries[i].target_platform == platform),
            }
        }),
{
    crate::reading::evidence_is_of_the_very_build(
        crate::skeleton::skeleton_views(skeleton@),
        version@,
        crate::coordinate::platform_of(Some(target_platform@)),
    );
}

/// A member is found where an object has it, as a text or a list only where it is one; the first of
/// a list is its first item; and a copy has the same content.
pub proof fn members_are_found_by_their_keys(
    document: &Json,
    key: &str,
    found: Option<&Json>,
    text: Option<&str>,
    items: Option<&Vec<Json>>,
    copy: Json,
)
    requires
        call_ensures(Json::get, (document, key), found),
        call_ensures(Json::get_str, (document, key), text),
        call_ensures(Json::get_list, (document, key), items),
        call_ensures(Json::duplicate, (document,), copy),
    ensures
        match found {
            Some(value) => document@.get(key@) == Some(value@),
            None => document@.get(key@) is None,
        },
        match text {
            Some(text) => document@.get(key@) == Some(JsonValue::Text(text@)),
            None => match document@.get(key@) {
                Some(JsonValue::Text(_)) => false,
                _ => true,
            },
        },
        match items {
            Some(items) => document@.get(key@) == Some(
                JsonValue::List(crate::json::json_views(items@)),
            ),
            None => match document@.get(key@) {
                Some(JsonValue::List(_)) => false,
                _ => true,
            },
        },
        copy@ == document@,
{
}

/// Flags are read of the member `flags`, of bytes as of a document; replaced, they are what was
/// given, and nothing else of the document changes.
pub proof fn flags_are_read_and_replaced(
    body: &[u8],
    of_body: Option<u32>,
    document: &Json,
    of_document: Option<u32>,
    given: Json,
    flags: u32,
    replaced: Option<Json>,
    query: Json,
    bytes: Vec<u8>,
)
    requires
        call_ensures(gallery_query_flags, (body,), of_body),
        call_ensures(document_flags, (document,), of_document),
        call_ensures(replace_flags, (given, flags), replaced),
        call_ensures(gallery_query_body, (query,), bytes),
    ensures
        match of_document {
            Some(read) => document@.get("flags"@) is Some && document@.get(
                "flags"@,
            )->Some_0.as_u64() == Some(read as u64),
            None => document@.get("flags"@) is None || document@.get("flags"@)->Some_0.as_u64()
                is None || document@.get("flags"@)->Some_0.as_u64()->Some_0 > 0xffff_ffff,
        },
        match crate::json::parsed_json(body@) {
            Some(spelled) => spelled == document@ ==> of_body == of_document,
            None => of_body is None,
        },
        match replaced {
            Some(replaced) => {
                &&& given@ is Object
                &&& replaced@.get("flags"@) == Some(
                    JsonValue::Number(crate::json::unsigned_number(flags as u64)),
                )
                &&& forall|key: Seq<char>|
                    key != "flags"@ ==> #[trigger] replaced@.get(key) == given@.get(key)
            },
            None => !(given@ is Object),
        },
        bytes@ == crate::json::written_json(query@),
{
    crate::planning::flags_are_the_member_flags(document@, flags);
    crate::planning::flags_are_the_member_flags(given@, flags);
}

/// An error is answered with its status, and with its text or the surface that is withheld.
pub proof fn errors_are_answered(
    error: &GalleryError,
    repo: &RepoInfo,
    status: u16,
    surface: Option<String>,
    text: Option<String>,
    other_type: String,
    private: String,
)
    requires
        call_ensures(GalleryError::status, (error,), status),
        call_ensures(GalleryError::surface, (error,), surface),
        call_ensures(GalleryError::message, (error, repo), text),
        call_ensures(unsupported_gallery_repo_type, (repo,), other_type),
        call_ensures(private_gallery_forbidden, (repo,), private),
    ensures
        status == 400 || status == 403 || status == 404 || status == 409 || status == 501 || status
            == 502 || status == 503,
        status == crate::error::error_status(*error),
        text is Some <==> surface is None,
        surface is Some ==> status == 503,
        *error == GalleryError::UnsupportedRepositoryType ==> text is Some && text->Some_0@
            == other_type@,
        *error == GalleryError::PrivateRepository ==> text is Some && text->Some_0@ == private@,
        match text {
            Some(text) => crate::error::error_text(*error, *repo) == Some(text@),
            None => crate::error::error_text(*error, *repo) is None,
        },
        match surface {
            Some(surface) => crate::error::withheld_surface(*error) == Some(surface@),
            None => crate::error::withheld_surface(*error) is None,
        },
{
    crate::addresses::errors_say_whose_they_are(*error);
    crate::addresses::errors_say_what_they_are_about(*error, *repo);
}

/// A repository is what its type says.
pub proof fn repositories_are_what_they_say(repo: &RepoInfo, remote: bool, aggregate: bool)
    requires
        call_ensures(RepoInfo::is_remote, (repo,), remote),
        call_ensures(RepoInfo::is_virtual, (repo,), aggregate),
    ensures
        remote <==> repo.repo_type@ == "remote"@,
        aggregate <==> repo.repo_type@ == "virtual"@,
{
}

/// A document may have two mebibytes and a history sixteen, and each is charged sixty-four.
pub proof fn documents_and_histories_are_bounded(
    document: MetadataWorkingSetLimits,
    history: MetadataWorkingSetLimits,
)
    requires
        call_ensures(metadata_limits, (), document),
        call_ensures(skeleton_limits, (), history),
    ensures
        document.max_bytes == 2 * 1024 * 1024,
        document.reservation_bytes == 64 * 1024 * 1024,
        history.max_bytes == 16 * 1024 * 1024,
        history.reservation_bytes == 64 * 1024 * 1024,
{
}

/// The addresses that may be refused are what they should be where they are not.
pub proof fn addresses_are_made_or_refused(
    base_url: &RequestBaseUrl,
    repo_key: &str,
    gallery_url: &str,
    publisher: &str,
    name: &str,
    version: &str,
    asset_type: &str,
    platform: &str,
    root: Result<String, GalleryError>,
    asset: Result<String, GalleryError>,
    legacy: Result<String, GalleryError>,
    body: &[u8],
    checksum: String,
)
    requires
        call_ensures(
            gallery_version_asset_base,
            (base_url, repo_key, publisher, name, version, platform),
            root,
        ),
        call_ensures(
            openvsx_asset_url,
            (gallery_url, publisher, name, version, asset_type, platform),
            asset,
        ),
        call_ensures(legacy_download_upstream_path, (publisher, name, version), legacy),
        call_ensures(checksum_sha256, (body,), checksum),
    ensures
        match root {
            Ok(root) => root@ == crate::addresses::build_root(
                base_url.0@,
                repo_key@,
                publisher@,
                name@,
                version@,
                platform@,
            ) && crate::coordinate::safe_segment(version@) && crate::coordinate::safe_platform(
                platform@,
            ),
            Err(error) => error == GalleryError::InvalidResponse
                && !(crate::coordinate::safe_segment(version@) && crate::coordinate::safe_platform(
                platform@,
            )),
        },
        match asset {
            Ok(url) => crate::urls::upstream_asset(
                gallery_url@,
                publisher@,
                name@,
                version@,
                asset_type@,
                platform@,
            ) == Ok::<Seq<char>, GalleryError>(url@),
            Err(error) => error == GalleryError::NoAssetEndpoint && !exists|before: Seq<char>|
                crate::text::without_trailing(gallery_url@, '/') == #[trigger] (before
                    + "/gallery"@),
        },
        match legacy {
            Ok(path) => path@ == "extensions"@ + crate::addresses::slashed(
                seq![
                    crate::percent::encoded(publisher@),
                    crate::percent::encoded(name@),
                    crate::percent::encoded(version@),
                    "download"@,
                ],
            ),
            Err(error) => error == GalleryError::InvalidPath,
        },
        checksum@ == crate::urls::sha256_text(body@),
        checksum@.len() == 64,
{
    crate::addresses::assets_are_served_under_their_build(
        base_url.0@,
        repo_key@,
        publisher@,
        name@,
        version@,
        platform@,
    );
    crate::addresses::legacy_packages_have_one_path(publisher@, name@, version@);
    crate::words::suffixes_end_a_text(
        crate::text::without_trailing(gallery_url@, '/'),
        "/gallery"@,
    );
}

/// Bytes are reserved exactly where they are free, as many as are asked for, and of the budget that
/// there is; a refused reservation changes nothing.
pub proof fn bytes_are_reserved_where_they_are_free(
    budget: &mut ProxyMetadataBudget,
    bytes: usize,
    permit: Option<MetadataPermit>,
)
    requires
        old(budget).within(),
        call_ensures(ProxyMetadataBudget::try_reserve, (budget, bytes), permit),
    ensures
        permit is Some <==> old(budget).reserved() + bytes <= old(budget).total(),
        permit is Some ==> permit->Some_0.bytes() == bytes,
        final(budget).total() == old(budget).total(),
        final(budget).reserved() == old(budget).reserved() + (if permit is Some {
            bytes as int
        } else {
            0
        }),
{
}

/// What a permit reserved is given back, and nothing more.
pub proof fn permits_are_given_back(
    budget: &mut ProxyMetadataBudget,
    permit: MetadataPermit,
    total: usize,
    fresh: ProxyMetadataBudget,
)
    requires
        old(budget).within(),
        permit.bytes() <= old(budget).reserved(),
        call_ensures(ProxyMetadataBudget::release, (budget, permit), ()),
        call_ensures(ProxyMetadataBudget::new, (total,), fresh),
    ensures
        final(budget).total() == old(budget).total(),
        final(budget).reserved() + permit.bytes() == old(budget).reserved(),
        fresh.total() == total,
        fresh.reserved() == 0,
{
}

/// A member that is set is there, and no other is touched; a list that is taken leaves a null.
pub proof fn members_are_set_by_their_keys(
    document: &mut Json,
    key: &str,
    value: Json,
    source: &mut Json,
    items: Option<Vec<Json>>,
)
    requires
        old(document)@ is Object,
        call_ensures(Json::insert, (document, key, value), ()),
        call_ensures(Json::take_list, (source, key), items),
    ensures
        final(document)@.get(key@) == Some(value@),
        forall|other: Seq<char>|
            other != key@ ==> #[trigger] final(document)@.get(other) == old(document)@.get(other),
        match items {
            Some(items) => {
                &&& old(source)@.get(key@) == Some(
                    JsonValue::List(crate::json::json_views(items@)),
                )
                &&& final(source)@.get(key@) == Some(JsonValue::Null)
            },
            None => final(source)@ == old(source)@,
        },
        forall|other: Seq<char>|
            other != key@ ==> #[trigger] final(source)@.get(other) == old(source)@.get(other),
{
}

/// A document that is made holds what it is made of, and is read and written as its bytes.
pub proof fn documents_hold_what_they_are_made_of(
    empty: Json,
    word: &str,
    text: Json,
    n: u64,
    unsigned: Json,
    i: i64,
    signed: Json,
    items: Vec<Json>,
    list: Json,
    bytes: &[u8],
    parsed: Option<Json>,
    document: &Json,
    first: Option<&Json>,
)
    requires
        call_ensures(Json::object, (), empty),
        call_ensures(Json::text, (word,), text),
        call_ensures(Json::unsigned, (n,), unsigned),
        call_ensures(Json::signed, (i,), signed),
        call_ensures(Json::list, (items,), list),
        call_ensures(Json::parse, (bytes,), parsed),
        call_ensures(Json::first, (document,), first),
    ensures
        empty@ is Object,
        forall|key: Seq<char>| (#[trigger] empty@.get(key)) is None,
        text@ == JsonValue::Text(word@),
        unsigned@.as_u64() == Some(n),
        i >= 0 ==> signed@.as_u64() == Some(i as u64),
        i < 0 ==> signed@.as_u64() is None,
        list@ == JsonValue::List(crate::json::json_views(items@)),
        match parsed {
            Some(parsed) => crate::json::parsed_json(bytes@) == Some(parsed@),
            None => crate::json::parsed_json(bytes@) is None,
        },
        match document@ {
            JsonValue::List(items) => if items.len() > 0 {
                first is Some && first->Some_0@ == items[0]
            } else {
                first is None
            },
            _ => true,
        },
{
}

} // verus!
