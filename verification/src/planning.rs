//! Laws on queries: which queries are composed and of what, which extensions a narrower answer
//! names, and what becomes of a query's flags.

use vstd::prelude::*;

use crate::error::GalleryError;
use crate::gallery::AssetStage;
use crate::json::JsonValue;
use crate::query::{
    GalleryQueryFilter, GalleryQueryRequest, GALLERY_EXACT_VERSION_QUERY_FLAGS,
    GALLERY_LATEST_VERSION_QUERY_FLAGS, GALLERY_SKELETON_QUERY_FLAGS,
};

verus! {

/// The items of a list, each at its first place only.
pub open spec fn each_once<T>(items: Seq<T>) -> Seq<T>
    decreases items.len(),
{
    if items.len() == 0 {
        Seq::empty()
    } else if items.drop_last().contains(items.last()) {
        each_once(items.drop_last())
    } else {
        each_once(items.drop_last()).push(items.last())
    }
}

proof fn lemma_each_once_contains<T>(items: Seq<T>, item: T)
    ensures
        each_once(items).contains(item) <==> items.contains(item),
    decreases items.len(),
{
    if items.len() > 0 {
        let front = items.drop_last();
        let before = each_once(front);
        lemma_each_once_contains(front, item);
        lemma_each_once_contains(front, items.last());
        assert(items =~= front.push(items.last()));
        if front.contains(item) {
            let k = choose|k: int| 0 <= k < front.len() && front[k] == item;
            assert(items[k] == item);
            let j = choose|j: int| 0 <= j < before.len() && before[j] == item;
            assert(each_once(items)[j] == item);
        }
        if items.contains(item) && !front.contains(item) {
            let k = choose|k: int| 0 <= k < items.len() && items[k] == item;
            assert(k < front.len() ==> front[k] == item);
            assert(item == items.last());
            assert(each_once(items).last() == item);
        }
        if each_once(items).contains(item) && !before.contains(item) {
            assert(item == items.last());
            assert(items[items.len() - 1] == item);
        }
    }
}

/// The criteria of two lists of filters are those of the first and, behind them, those of the
/// second. The criteria of one filter are its own, each in its place; one without a value has the
/// empty one.
pub proof fn criteria_are_those_of_every_filter(
    front: Seq<GalleryQueryFilter>,
    back: Seq<GalleryQueryFilter>,
    filter: GalleryQueryFilter,
)
    ensures
        crate::query::all_criteria(front + back) == crate::query::all_criteria(front)
            + crate::query::all_criteria(back),
        crate::query::all_criteria(seq![filter]).len() == filter.criteria@.len(),
        forall|i: int|
            0 <= i < filter.criteria@.len() ==> {
                let read = #[trigger] crate::query::all_criteria(seq![filter])[i];
                &&& read.0 == filter.criteria@[i].filter_type
                &&& match filter.criteria@[i].value {
                    Some(value) => read.1 == value@,
                    None => read.1.len() == 0,
                }
            },
    decreases back.len(),
{
    reveal_with_fuel(crate::query::all_criteria, 2);
    assert(seq![filter].drop_last() =~= Seq::empty());
    assert(crate::query::all_criteria(seq![filter]) =~= crate::query::filter_criteria(filter));
    if back.len() == 0 {
        assert(front + back =~= front);
        assert(crate::query::all_criteria(front) + crate::query::all_criteria(back)
            =~= crate::query::all_criteria(front));
    } else {
        let whole = front + back;
        assert(whole.drop_last() =~= front + back.drop_last());
        assert(whole.last() == back.last());
        criteria_are_those_of_every_filter(front, back.drop_last(), filter);
        assert(crate::query::all_criteria(whole) =~= crate::query::all_criteria(front)
            + crate::query::all_criteria(back));
    }
}

/// A page holds as many extensions as the first filter asks for, but never none and never more
/// than fifty; without a wish it holds fifty.
pub proof fn pages_hold_one_to_fifty(request: GalleryQueryRequest)
    ensures
        ({
            let limit = crate::query::page_limit(request);
            let wish = if request.filters@.len() > 0 {
                request.filters@[0].page_size
            } else {
                None
            };
            &&& 1 <= limit <= 50
            &&& match wish {
                Some(size) => {
                    &&& 1 <= size <= 50 ==> limit == size
                    &&& size == 0 ==> limit == 1
                    &&& size > 50 ==> limit == 50
                },
                None => limit == 50,
            }
        }),
{
}

/// The criteria that select an extension: by identifier, and by name.
pub open spec fn naming() -> spec_fn((u64, Seq<char>)) -> bool {
    |criterion: (u64, Seq<char>)| criterion.0 == 4 || criterion.0 == 7
}

/// The criteria that qualify a selection, by product and by what is left out, and have a value.
pub open spec fn narrowing() -> spec_fn((u64, Seq<char>)) -> bool {
    |criterion: (u64, Seq<char>)| (criterion.0 == 8 || criterion.0 == 12) && criterion.1.len() > 0
}

proof fn lemma_filter_step(criteria: Seq<(u64, Seq<char>)>, p: spec_fn((u64, Seq<char>)) -> bool)
    requires
        criteria.len() > 0,
    ensures
        ({
            let before = criteria.drop_last().filter(p);
            &&& p(criteria.last()) ==> criteria.filter(p) == before.push(criteria.last())
            &&& p(criteria.last()) ==> each_once(criteria.filter(p)) == (if each_once(
                before,
            ).contains(criteria.last()) {
                each_once(before)
            } else {
                each_once(before).push(criteria.last())
            })
            &&& !p(criteria.last()) ==> criteria.filter(p) == before
        }),
{
    reveal(Seq::filter);
    let before = criteria.drop_last().filter(p);
    if p(criteria.last()) {
        assert(before.push(criteria.last()).drop_last() =~= before);
        lemma_each_once_contains(before, criteria.last());
    }
}

/// The extensions that a query names are its naming criteria, all of them, each at its first
/// place; and so are its qualifiers the narrowing ones that have a value.
pub proof fn criteria_are_taken_once_and_in_order(criteria: Seq<(u64, Seq<char>)>)
    ensures
        crate::query::selected(criteria) == each_once(criteria.filter(naming())),
        crate::query::qualifying(criteria) == each_once(criteria.filter(narrowing())),
    decreases criteria.len(),
{
    if criteria.len() == 0 {
        reveal(Seq::filter);
        assert(criteria.filter(naming()) =~= Seq::empty());
        assert(criteria.filter(narrowing()) =~= Seq::empty());
    } else {
        criteria_are_taken_once_and_in_order(criteria.drop_last());
        lemma_filter_step(criteria, naming());
        lemma_filter_step(criteria, narrowing());
    }
}

/// Whether a criterion may stand in a query that is composed.
pub open spec fn composable(criterion: (u64, Seq<char>)) -> bool {
    &&& criterion.0 == 4 || criterion.0 == 7 || criterion.0 == 8 || criterion.0 == 12
    &&& criterion.1.len() > 0
}

/// A query is composed exactly where it asks for version histories and not for the latest versions
/// only, names an extension, has no criterion that may not stand in it, and no more than eight
/// qualifiers. It is composed of all its qualifiers, and of the extensions that it names, as many
/// as a page holds.
pub proof fn named_extensions_are_composed(request: GalleryQueryRequest)
    ensures
        ({
            let criteria = crate::query::all_criteria(request.filters@);
            let named = each_once(criteria.filter(naming()));
            let qualifiers = each_once(criteria.filter(narrowing()));
            let owed = {
                &&& request.flags & 1u32 != 0
                &&& request.flags & 512u32 == 0
                &&& forall|i: int| 0 <= i < criteria.len() ==> composable(#[trigger] criteria[i])
                &&& named.len() > 0
                &&& qualifiers.len() <= 8
            };
            match crate::query::composition_of(request) {
                Some((identities, replayed)) => {
                    &&& owed
                    &&& replayed == qualifiers
                    &&& named.len() <= crate::query::page_limit(request) ==> identities == named
                    &&& named.len() > crate::query::page_limit(request) ==> identities
                        == named.take(crate::query::page_limit(request) as int)
                },
                None => !owed,
            }
        }),
{
    let criteria = crate::query::all_criteria(request.filters@);
    criteria_are_taken_once_and_in_order(criteria);
    let plain = forall|i: int| 0 <= i < criteria.len() ==> composable(#[trigger] criteria[i]);
    let strange = exists|i: int|
        0 <= i < criteria.len() && crate::query::foreign(#[trigger] criteria[i]);
    if plain && strange {
        let i = choose|i: int|
            0 <= i < criteria.len() && crate::query::foreign(#[trigger] criteria[i]);
        assert(composable(criteria[i]));
    }
    if !plain && !strange {
        let i = choose|i: int| 0 <= i < criteria.len() && !composable(#[trigger] criteria[i]);
        assert(!crate::query::foreign(criteria[i]));
    }
}

/// Whether every extension record has an identity.
pub open spec fn identified(records: Seq<JsonValue>) -> bool {
    forall|i: int|
        0 <= i < records.len() ==> crate::response::identity_of(#[trigger] records[i]) is Some
}

/// The names that extension records go by: publisher, dot and name.
pub open spec fn ids(records: Seq<JsonValue>) -> Seq<Seq<char>> {
    records.map_values(
        |record: JsonValue|
            crate::response::identity_of(record)->Some_0.0 + seq!['.']
                + crate::response::identity_of(record)->Some_0.1,
    )
}

/// The criteria that select extensions by name.
pub open spec fn by_name(names: Seq<Seq<char>>) -> Seq<(u64, Seq<char>)> {
    names.map_values(|name: Seq<char>| (7u64, name))
}

proof fn lemma_push_id(front: Seq<JsonValue>, record: JsonValue)
    requires
        crate::response::identity_of(record) is Some,
    ensures
        ({
            let (publisher, name) = crate::response::identity_of(record)->Some_0;
            let id = crate::urls::extension_id(publisher, name);
            let found = each_once(ids(front));
            each_once(ids(front.push(record))) == (if found.contains(id) {
                found
            } else {
                found.push(id)
            })
        }),
{
    let (publisher, name) = crate::response::identity_of(record)->Some_0;
    let id = crate::urls::extension_id(publisher, name);
    reveal_strlit(".");
    assert("."@ =~= seq!['.']);
    assert(ids(front.push(record)) =~= ids(front).push(id));
    assert(ids(front).push(id).drop_last() =~= ids(front));
    lemma_each_once_contains(ids(front), id);
}

/// Whether the records before `k` have identities and name `names`, `limit` of them, with records
/// left to look at.
pub open spec fn full_at(
    records: Seq<JsonValue>,
    front: Seq<JsonValue>,
    names: Seq<Seq<char>>,
    limit: nat,
    k: int,
) -> bool {
    &&& 0 <= k < records.len()
    &&& identified(records.take(k))
    &&& names == each_once(ids(front + records.take(k)))
    &&& names.len() == limit
}

/// Whether the record at `k` is the first without an identity, and those before it do not name
/// enough extensions.
pub open spec fn broken_at(
    records: Seq<JsonValue>,
    front: Seq<JsonValue>,
    limit: nat,
    k: int,
) -> bool {
    &&& 0 <= k < records.len()
    &&& identified(records.take(k))
    &&& crate::response::identity_of(records[k]) is None
    &&& each_once(ids(front + records.take(k))).len() < limit
}

/// Whether `names` are those of all records, each once, and no more than `limit`.
pub open spec fn all_named(
    records: Seq<JsonValue>,
    front: Seq<JsonValue>,
    names: Seq<Seq<char>>,
    limit: nat,
) -> bool {
    &&& identified(records)
    &&& names == each_once(ids(front + records))
    &&& names.len() <= limit
}

spec fn scanned(
    records: Seq<JsonValue>,
    front: Seq<JsonValue>,
    limit: nat,
    scan: crate::query::Scan,
) -> bool {
    match scan {
        crate::query::Scan::More(names) => all_named(records, front, names, limit),
        crate::query::Scan::Full(names) => exists|k: int| #[trigger]
            full_at(records, front, names, limit, k),
        crate::query::Scan::Invalid => exists|k: int| #[trigger]
            broken_at(records, front, limit, k),
    }
}

spec fn results_scanned(
    records: Seq<JsonValue>,
    front: Seq<JsonValue>,
    limit: nat,
    scan: Option<Seq<Seq<char>>>,
) -> bool {
    match scan {
        Some(names) => all_named(records, front, names, limit) || exists|k: int| #[trigger]
            full_at(records, front, names, limit, k),
        None => exists|k: int| #[trigger] broken_at(records, front, limit, k),
    }
}

proof fn lemma_scan(records: Seq<JsonValue>, front: Seq<JsonValue>, limit: nat)
    requires
        each_once(ids(front)).len() <= limit,
    ensures
        scanned(
            records,
            front,
            limit,
            crate::query::scan_extensions(records, limit, each_once(ids(front))),
        ),
    decreases records.len(),
{
    let found = each_once(ids(front));
    if records.len() == 0 {
        assert(front + records =~= front);
        assert(all_named(records, front, found, limit));
    } else if found.len() >= limit {
        assert(front + records.take(0) =~= front);
        assert(full_at(records, front, found, limit, 0));
        if let crate::query::Scan::Full(names) = crate::query::scan_extensions(
            records,
            limit,
            found,
        ) {
            assert(full_at(records, front, names, limit, 0));
        }
    } else if crate::response::identity_of(records[0]) is None {
        assert(front + records.take(0) =~= front);
        assert(broken_at(records, front, limit, 0));
    } else {
        let rest = records.drop_first();
        let next = front.push(records[0]);
        lemma_push_id(front, records[0]);
        lemma_scan(rest, next, limit);
        assert(crate::query::scan_extensions(records, limit, found)
            == crate::query::scan_extensions(rest, limit, each_once(ids(next))));
        assert(next + rest =~= front + records);
        assert forall|k: int| 0 <= k <= rest.len() implies #[trigger] (next + rest.take(k)) == front
            + records.take(k + 1) by {
            assert(next + rest.take(k) =~= front + records.take(k + 1));
        }
        assert forall|k: int| 0 <= k <= rest.len() && identified(#[trigger] rest.take(k)) implies
            identified(records.take(k + 1)) by {
            let longer = records.take(k + 1);
            assert forall|i: int|
                0 <= i < longer.len() implies crate::response::identity_of(
                #[trigger] longer[i],
            ) is Some by {
                if i > 0 {
                    assert(longer[i] == rest.take(k)[i - 1]);
                }
            }
        }
        match crate::query::scan_extensions(rest, limit, each_once(ids(next))) {
            crate::query::Scan::More(names) => {
                assert(rest.take(rest.len() as int) =~= rest);
                assert(records.take(rest.len() as int + 1) =~= records);
                assert(identified(rest.take(rest.len() as int)));
                assert(identified(records.take(rest.len() as int + 1)));
                assert(all_named(records, front, names, limit));
            },
            crate::query::Scan::Full(names) => {
                let k = choose|k: int| #[trigger] full_at(rest, next, names, limit, k);
                assert(next + rest.take(k) == front + records.take(k + 1));
                assert(full_at(records, front, names, limit, k + 1));
            },
            crate::query::Scan::Invalid => {
                let k = choose|k: int| #[trigger] broken_at(rest, next, limit, k);
                assert(next + rest.take(k) == front + records.take(k + 1));
                assert(broken_at(records, front, limit, k + 1));
            },
        }
    }
}

proof fn lemma_identified_front(front: Seq<JsonValue>, back: Seq<JsonValue>, k: int)
    requires
        identified(front),
        0 <= k <= back.len(),
        identified(back.take(k)),
    ensures
        identified((front + back).take(front.len() + k)),
{
    let whole = (front + back).take(front.len() + k);
    assert forall|i: int| 0 <= i < whole.len() implies crate::response::identity_of(
        #[trigger] whole[i],
    ) is Some by {
        if i < front.len() {
            assert(whole[i] == front[i]);
        } else {
            assert(whole[i] == back.take(k)[i - front.len()]);
        }
    }
}

proof fn lemma_scan_results(results: Seq<JsonValue>, front: Seq<JsonValue>, limit: nat)
    requires
        each_once(ids(front)).len() <= limit,
        crate::withheld::all_lists(results),
    ensures
        results_scanned(
            crate::withheld::all_extensions(results),
            front,
            limit,
            crate::query::scan_results(results, limit, each_once(ids(front))),
        ),
    decreases results.len(),
{
    let records = crate::withheld::all_extensions(results);
    if results.len() == 0 {
        assert(front + records =~= front);
    } else {
        crate::withheld::lemma_flat_front(results);
        let first = results[0].list_at("extensions"@)->Some_0;
        let rest = crate::withheld::all_extensions(results.drop_first());
        assert(records == first + rest);
        assert(results[0].list_at("extensions"@) is Some);
        lemma_scan(first, front, limit);
        match crate::query::scan_extensions(first, limit, each_once(ids(front))) {
            crate::query::Scan::More(_) => {
                let next = front + first;
                assert(crate::withheld::all_lists(results.drop_first())) by {
                    let shorter = results.drop_first();
                    assert forall|i: int| 0 <= i < shorter.len() implies (
                    #[trigger] shorter[i]).list_at("extensions"@) is Some by {
                        assert(shorter[i] == results[i + 1]);
                    }
                }
                lemma_scan_results(results.drop_first(), next, limit);
                assert(crate::query::scan_results(results, limit, each_once(ids(front)))
                    == crate::query::scan_results(
                    results.drop_first(),
                    limit,
                    each_once(ids(next)),
                ));
                assert(next + rest =~= front + records);
                let at = first.len() as int;
                match crate::query::scan_results(
                    results.drop_first(),
                    limit,
                    each_once(ids(next)),
                ) {
                    Some(names) => {
                        if exists|k: int| #[trigger] full_at(rest, next, names, limit, k) {
                            let k = choose|k: int| #[trigger] full_at(rest, next, names, limit, k);
                            assert(next + rest.take(k) =~= front + records.take(at + k));
                            lemma_identified_front(first, rest, k);
                            assert(full_at(records, front, names, limit, at + k));
                        } else {
                            assert(rest.take(rest.len() as int) =~= rest);
                            lemma_identified_front(first, rest, rest.len() as int);
                            assert(records.take(records.len() as int) =~= records);
                        }
                    },
                    None => {
                        let k = choose|k: int| #[trigger] broken_at(rest, next, limit, k);
                        assert(next + rest.take(k) =~= front + records.take(at + k));
                        lemma_identified_front(first, rest, k);
                        assert(broken_at(records, front, limit, at + k));
                    },
                }
            },
            crate::query::Scan::Full(names) => {
                let k = choose|k: int| #[trigger] full_at(first, front, names, limit, k);
                assert(first.take(k) =~= records.take(k));
                assert(full_at(records, front, names, limit, k));
            },
            crate::query::Scan::Invalid => {
                let k = choose|k: int| #[trigger] broken_at(first, front, limit, k);
                assert(first.take(k) =~= records.take(k));
                assert(broken_at(records, front, limit, k));
            },
        }
    }
}

/// The identities of a page are the names of its extension records, over all its results and in
/// their order, each once: all of them, or the first `limit` where there are more. The records are
/// looked at only until there are enough names, and a page is refused exactly where a record that
/// is looked at has no identity.
pub proof fn pages_name_every_extension(response: JsonValue, limit: nat)
    requires
        match response.list_at("results"@) {
            Some(results) => crate::withheld::all_lists(results),
            None => true,
        },
    ensures
        match response.list_at("results"@) {
            Some(results) => {
                let records = crate::withheld::all_extensions(results);
                match crate::query::response_identities(response, limit) {
                    Some(criteria) => {
                        ||| identified(records) && criteria == by_name(each_once(ids(records)))
                            && criteria.len() <= limit
                        ||| exists|k: int|
                            {
                                &&& 0 <= k < records.len()
                                &&& identified(#[trigger] records.take(k))
                                &&& criteria == by_name(each_once(ids(records.take(k))))
                                &&& criteria.len() == limit
                            }
                    },
                    None => exists|k: int|
                        {
                            &&& 0 <= k < records.len()
                            &&& identified(#[trigger] records.take(k))
                            &&& crate::response::identity_of(records[k]) is None
                            &&& each_once(ids(records.take(k))).len() < limit
                        },
                }
            },
            None => crate::query::response_identities(response, limit) is None,
        },
{
    if let Some(results) = response.list_at("results"@) {
        let records = crate::withheld::all_extensions(results);
        let front = Seq::<JsonValue>::empty();
        assert(ids(front) =~= Seq::empty());
        assert(each_once(ids(front)) =~= Seq::empty());
        lemma_scan_results(results, front, limit);
        assert(front + records =~= records);
        match crate::query::scan_results(results, limit, Seq::empty()) {
            Some(names) => {
                assert(crate::query::name_criteria(names) =~= by_name(names));
                if exists|k: int| #[trigger] full_at(records, front, names, limit, k) {
                    let k = choose|k: int| #[trigger] full_at(records, front, names, limit, k);
                    assert(front + records.take(k) =~= records.take(k));
                }
            },
            None => {
                let k = choose|k: int| #[trigger] broken_at(records, front, limit, k);
                assert(front + records.take(k) =~= records.take(k));
            },
        }
    }
}

proof fn lemma_short_scan(results: Seq<JsonValue>, limit: nat, found: Seq<Seq<char>>)
    ensures
        match crate::query::scan_results(results, limit, found) {
            Some(names) => names.len() < limit ==> crate::withheld::all_lists(results),
            None => true,
        },
    decreases results.len(),
{
    if results.len() > 0 {
        if let Some(extensions) = results[0].list_at("extensions"@) {
            lemma_full(extensions, limit, found);
            if let crate::query::Scan::More(more) = crate::query::scan_extensions(
                extensions,
                limit,
                found,
            ) {
                let rest = results.drop_first();
                lemma_short_scan(rest, limit, more);
                if crate::withheld::all_lists(rest) {
                    assert forall|i: int| 0 <= i < results.len() implies (
                    #[trigger] results[i]).list_at("extensions"@) is Some by {
                        if i > 0 {
                            assert(rest[i - 1] == results[i]);
                        }
                    }
                }
            }
        }
    }
}

proof fn lemma_full(extensions: Seq<JsonValue>, limit: nat, found: Seq<Seq<char>>)
    ensures
        match crate::query::scan_extensions(extensions, limit, found) {
            crate::query::Scan::Full(names) => names.len() >= limit,
            _ => true,
        },
    decreases extensions.len(),
{
    if extensions.len() > 0 && found.len() < limit {
        if let Some((publisher, name)) = crate::response::identity_of(extensions[0]) {
            let id = crate::urls::extension_id(publisher, name);
            lemma_full(
                extensions.drop_first(),
                limit,
                if found.contains(id) {
                    found
                } else {
                    found.push(id)
                },
            );
        }
    }
}

/// A page that names fewer extensions than there is room for has a list of extension records in
/// every one of its results: none is passed over.
pub proof fn no_result_is_passed_over(response: JsonValue, limit: nat)
    ensures
        match crate::query::response_identities(response, limit) {
            Some(criteria) => criteria.len() < limit ==> {
                &&& response.list_at("results"@) is Some
                &&& crate::withheld::all_lists(response.list_at("results"@)->Some_0)
            },
            None => true,
        },
{
    if let Some(results) = response.list_at("results"@) {
        lemma_short_scan(results, limit, Seq::empty());
    }
}

/// The flags of a document are its member `flags` where that is a whole number of thirty-two bits.
/// A document under other flags has them there and is otherwise as it was; what is no object has
/// no flags to replace.
pub proof fn flags_are_the_member_flags(document: JsonValue, flags: u32)
    ensures
        match crate::query::flags_of(document) {
            Some(read) => match document.get("flags"@) {
                Some(member) => member.as_u64() == Some(read as u64),
                None => false,
            },
            None => match document.get("flags"@) {
                Some(member) => match member.as_u64() {
                    Some(read) => read > 0xffff_ffff,
                    None => true,
                },
                None => true,
            },
        },
        match crate::query::with_flags(document, flags) {
            Some(after) => {
                &&& document is Object
                &&& after.get("flags"@) == Some(
                    JsonValue::Number(crate::json::unsigned_number(flags as u64)),
                )
                &&& forall|key: Seq<char>|
                    key != "flags"@ ==> #[trigger] after.get(key) == document.get(key)
            },
            None => !(document is Object),
        },
{
}

/// The client's query under other flags is what it sent, under those flags, wherever it sent a
/// JSON object.
pub proof fn queries_are_reissued_under_other_flags(body: Seq<u8>, flags: u32)
    ensures
        match crate::json::parsed_json(body) {
            Some(document) => if document is Object {
                crate::query::reflagged(body, flags) == Some(
                    crate::json::written_json(
                        document.with(
                            "flags"@,
                            JsonValue::Number(crate::json::unsigned_number(flags as u64)),
                        ),
                    ),
                )
            } else {
                crate::query::reflagged(body, flags) is None
            },
            None => crate::query::reflagged(body, flags) is None,
        },
{
}

/// The narrower query differs from the client's in two flags only.
pub proof fn narrower_queries_keep_the_other_flags(flags: u32)
    ensures
        crate::gallery::identity_flags(flags) & 1u32 == 0,
        crate::gallery::identity_flags(flags) & 512u32 == 512,
        forall|bit: u32|
            bit & 513u32 == 0 ==> (#[trigger] (crate::gallery::identity_flags(flags) & bit))
                == flags & bit,
{
    assert(((flags | 512u32) & !1u32) & 1u32 == 0u32) by (bit_vector);
    assert(((flags | 512u32) & !1u32) & 512u32 == 512u32) by (bit_vector);
    assert forall|bit: u32| bit & 513u32 == 0 implies (#[trigger] (crate::gallery::identity_flags(
        flags,
    ) & bit)) == flags & bit by {
        assert(bit & 513u32 == 0 ==> ((flags | 512u32) & !1u32) & bit == flags & bit)
            by (bit_vector);
    }
}

/// The flags of a client's query are those of its request. Where that could not be read, they are
/// those of its JSON, and there are none where that has none.
pub proof fn clients_say_their_flags(request: Option<GalleryQueryRequest>, body: Seq<u8>)
    ensures
        ({
            let flags = crate::gallery::client_flags(request, body);
            let written = match crate::json::parsed_json(body) {
                Some(document) => match document.get("flags"@) {
                    Some(member) => member.as_u64(),
                    None => None,
                },
                None => None,
            };
            match request {
                Some(request) => flags == request.flags,
                None => match written {
                    Some(number) => if number <= 0xffff_ffff {
                        flags == number
                    } else {
                        flags == 0
                    },
                    None => flags == 0,
                },
            }
        }),
{
}

/// Composing behind a narrower query replays the client's qualifiers, unless there are more than
/// eight, and takes a page of its identities. A request that could not be read has no qualifiers
/// and a page of fifty.
pub proof fn narrowed_queries_keep_page_and_qualifiers(request: Option<GalleryQueryRequest>)
    ensures
        match request {
            Some(request) => {
                let qualifiers = each_once(
                    crate::query::all_criteria(request.filters@).filter(narrowing()),
                );
                &&& crate::gallery::identity_limit(Some(request)) == crate::query::page_limit(
                    request,
                )
                &&& crate::gallery::replayed_qualifiers(Some(request)) == (if qualifiers.len()
                    <= 8 {
                    Some(qualifiers)
                } else {
                    None
                })
            },
            None => {
                &&& crate::gallery::identity_limit(None) == 50
                &&& crate::gallery::replayed_qualifiers(None) == Some(
                    Seq::<(u64, Seq<char>)>::empty(),
                )
            },
        },
{
    if let Some(request) = request {
        criteria_are_taken_once_and_in_order(crate::query::all_criteria(request.filters@));
    }
}

/// An upstream's answer is a gallery document exactly where it is JSON with a list of results; what
/// is no JSON is malformed, and JSON without such a list is invalid.
pub proof fn answers_have_a_list_of_results(content: Seq<u8>)
    ensures
        match crate::gallery::document_in(content) {
            Ok(document) => {
                &&& crate::json::parsed_json(content) == Some(document)
                &&& match document.get("results"@) {
                    Some(JsonValue::List(_)) => true,
                    _ => false,
                }
            },
            Err(error) => match crate::json::parsed_json(content) {
                Some(document) => {
                    &&& error == GalleryError::InvalidResponse
                    &&& match document.get("results"@) {
                        Some(JsonValue::List(_)) => false,
                        _ => true,
                    }
                },
                None => error == GalleryError::MalformedJson,
            },
        },
{
}

/// An asset request passes the operator's list, the age gate, the proxy and the check of the URL,
/// in this order, before any bytes are looked for.
pub proof fn bytes_come_last(stage: AssetStage)
    ensures
        crate::gallery::stage_rank(stage) <= crate::gallery::stage_rank(AssetStage::Fetch),
        stage != AssetStage::Fetch ==> crate::gallery::stage_rank(stage)
            < crate::gallery::stage_rank(AssetStage::Fetch),
        stage != AssetStage::Curation ==> crate::gallery::stage_rank(AssetStage::Curation)
            < crate::gallery::stage_rank(stage),
        stage != AssetStage::Curation && stage != AssetStage::AgeGate
            ==> crate::gallery::stage_rank(AssetStage::AgeGate) < crate::gallery::stage_rank(stage),
        stage == AssetStage::OutboundUrl ==> crate::gallery::stage_rank(AssetStage::Proxy)
            < crate::gallery::stage_rank(stage),
{
}

/// The flags that a history is asked for with ask for what is read of it, and for nothing that
/// would make it larger; those for one date ask for versions alone; those for the latest version
/// ask for everything there is, of no other.
pub proof fn flags_ask_for_what_is_read(bit: u32)
    ensures
        bit == 1 || bit == 16 ==> GALLERY_SKELETON_QUERY_FLAGS & bit != 0,
        bit & 17u32 == 0 ==> GALLERY_SKELETON_QUERY_FLAGS & bit == 0,
        bit == 1 ==> GALLERY_EXACT_VERSION_QUERY_FLAGS & bit != 0,
        bit & 1u32 == 0 ==> GALLERY_EXACT_VERSION_QUERY_FLAGS & bit == 0,
        bit != 0 && bit < 1024 ==> GALLERY_LATEST_VERSION_QUERY_FLAGS & bit != 0,
        bit & 1023u32 == 0 ==> GALLERY_LATEST_VERSION_QUERY_FLAGS & bit == 0,
{
    assert(bit == 1 || bit == 16 ==> (1u32 | 16u32) & bit != 0) by (bit_vector);
    assert(bit & 17u32 == 0 ==> (1u32 | 16u32) & bit == 0) by (bit_vector);
    assert(bit == 1 ==> 1u32 & bit != 0) by (bit_vector);
    assert(bit & 1u32 == 0 ==> 1u32 & bit == 0) by (bit_vector);
    assert(bit != 0 && bit < 1024 ==> (511u32 | 512u32) & bit != 0) by (bit_vector);
    assert(bit & 1023u32 == 0 ==> (511u32 | 512u32) & bit == 0) by (bit_vector);
}

} // verus!
