//! Extension queries: what a client asks for, which of it can be composed one extension at a
//! time, and the queries that this server asks on a client's behalf.

use vstd::prelude::*;
use vstd::hash_set::StringHashSet;

use crate::bounds::{GALLERY_COMPOSED_IDENTITY_CAP, GALLERY_COMPOSED_QUALIFIER_CAP};
use crate::coordinate::invalid_gallery_response;
use crate::error::GalleryError;
use crate::json::{Json, JsonValue};
use crate::response::gallery_extension_identity;
use crate::text::is_empty;
use crate::urls::build_extension_id;

verus! {

/// Asks for each extension's whole version history.
pub const GALLERY_INCLUDE_VERSIONS_FLAG: u32 = 1;

/// Asks for the files of each version.
pub const GALLERY_INCLUDE_FILES_FLAG: u32 = 2;

/// Asks for the properties of each version.
pub const GALLERY_VERSION_PROPERTIES_FLAG: u32 = 16;

/// Asks for the asset references of each version.
pub const GALLERY_INCLUDE_ASSET_URI_FLAG: u32 = 128;

/// Asks for the latest version only.
pub const GALLERY_LATEST_VERSION_ONLY_FLAG: u32 = 512;

/// What a version history is asked for with: versions and their properties.
pub const GALLERY_SKELETON_QUERY_FLAGS: u32 = GALLERY_INCLUDE_VERSIONS_FLAG
    | GALLERY_VERSION_PROPERTIES_FLAG;

/// What the publish time of one version is asked for with: versions.
pub const GALLERY_EXACT_VERSION_QUERY_FLAGS: u32 = GALLERY_INCLUDE_VERSIONS_FLAG;

/// What the latest version is asked for with: all there is of it, and no other.
pub const GALLERY_LATEST_VERSION_QUERY_FLAGS: u32 = 511 | GALLERY_LATEST_VERSION_ONLY_FLAG;

/// Selects the extension with an identifier.
pub const GALLERY_EXTENSION_ID_FILTER: u64 = 4;

/// Selects the extension with a name.
pub const GALLERY_EXTENSION_NAME_FILTER: u64 = 7;

/// Qualifies a selection by the product it is for.
pub const GALLERY_TARGET_FILTER: u64 = 8;

/// Qualifies a selection by what it leaves out.
pub const GALLERY_EXCLUDE_WITH_FLAGS_FILTER: u64 = 12;

/// One criterion of a query.
#[derive(Debug)]
pub struct GalleryCriterion {
    pub filter_type: u64,
    pub value: String,
}

impl View for GalleryCriterion {
    type V = (u64, Seq<char>);

    open spec fn view(&self) -> (u64, Seq<char>) {
        (self.filter_type, self.value@)
    }
}

/// The views of a list of criteria.
pub open spec fn criterion_views(criteria: Seq<GalleryCriterion>) -> Seq<(u64, Seq<char>)> {
    criteria.map_values(|criterion: GalleryCriterion| criterion@)
}

/// What composing an answer takes: the extensions, in the client's order, and the qualifiers that
/// every query on the client's behalf repeats.
#[derive(Debug)]
pub struct GalleryComposition {
    pub identities: Vec<GalleryCriterion>,
    pub qualifiers: Vec<GalleryCriterion>,
}

/// What a client's query says of extensions, versions and pages.
#[derive(Debug)]
pub struct GalleryQueryRequest {
    pub filters: Vec<GalleryQueryFilter>,
    pub flags: u32,
}

/// One filter of a client's query.
#[derive(Debug)]
pub struct GalleryQueryFilter {
    pub criteria: Vec<GalleryQueryCriterion>,
    pub page_size: Option<u64>,
}

/// One criterion of a client's query, which may lack its value.
#[derive(Debug)]
pub struct GalleryQueryCriterion {
    pub filter_type: u64,
    pub value: Option<String>,
}

impl View for GalleryQueryCriterion {
    type V = (u64, Seq<char>);

    open spec fn view(&self) -> (u64, Seq<char>) {
        (
            self.filter_type,
            match self.value {
                Some(value) => value@,
                None => Seq::empty(),
            },
        )
    }
}

/// The criteria of one filter. One without a value has the empty one.
pub open spec fn filter_criteria(filter: GalleryQueryFilter) -> Seq<(u64, Seq<char>)> {
    filter.criteria@.map_values(|criterion: GalleryQueryCriterion| criterion@)
}

/// The criteria of all filters, in order.
pub open spec fn all_criteria(filters: Seq<GalleryQueryFilter>) -> Seq<(u64, Seq<char>)>
    decreases filters.len(),
{
    if filters.len() == 0 {
        Seq::empty()
    } else {
        all_criteria(filters.drop_last()) + filter_criteria(filters.last())
    }
}

/// The criteria of all filters, in order.
fn collect_criteria(filters: &Vec<GalleryQueryFilter>) -> (criteria: Vec<GalleryCriterion>)
    ensures
        criterion_views(criteria@) == all_criteria(filters@),
{
    let mut criteria: Vec<GalleryCriterion> = Vec::new();
    let mut i: usize = 0;
    assert(criterion_views(criteria@) =~= all_criteria(filters@.take(0)));
    while i < filters.len()
        invariant
            i <= filters@.len(),
            criterion_views(criteria@) == all_criteria(filters@.take(i as int)),
        decreases filters@.len() - i,
    {
        let filter = &filters[i];
        let ghost before = criterion_views(criteria@);
        let mut j: usize = 0;
        assert(before + filter_criteria(*filter).take(0) =~= before);
        while j < filter.criteria.len()
            invariant
                j <= filter.criteria@.len(),
                criterion_views(criteria@) == before + filter_criteria(*filter).take(j as int),
            decreases filter.criteria@.len() - j,
        {
            let criterion = &filter.criteria[j];
            let value = match &criterion.value {
                Some(value) => value.as_str().to_string(),
                None => String::new(),
            };
            let next = GalleryCriterion { filter_type: criterion.filter_type, value };
            let ghost held = criterion_views(criteria@);
            criteria.push(next);
            assert(next@.1 =~= criterion@.1);
            assert(criterion_views(criteria@) =~= held.push(next@));
            assert(filter_criteria(*filter)[j as int] == criterion@);
            assert(filter_criteria(*filter).take(j + 1) =~= filter_criteria(*filter).take(
                j as int,
            ).push(criterion@));
            assert(criterion_views(criteria@) =~= before + filter_criteria(*filter).take(j + 1));
            j += 1;
        }
        assert(filter_criteria(*filter).take(j as int) =~= filter_criteria(*filter));
        assert(filters@.take(i + 1).drop_last() =~= filters@.take(i as int));
        i += 1;
    }
    assert(filters@.take(i as int) =~= filters@);
    criteria
}

/// Whether a criterion selects one extension.
pub open spec fn selects(filter_type: u64) -> bool {
    filter_type == GALLERY_EXTENSION_ID_FILTER || filter_type == GALLERY_EXTENSION_NAME_FILTER
}

/// Whether a criterion qualifies a selection.
pub open spec fn qualifies(filter_type: u64) -> bool {
    filter_type == GALLERY_TARGET_FILTER || filter_type == GALLERY_EXCLUDE_WITH_FLAGS_FILTER
}

/// Whether a criterion keeps a query from being composed: it neither selects nor qualifies, or it
/// has no value.
pub open spec fn foreign(criterion: (u64, Seq<char>)) -> bool {
    (!selects(criterion.0) && !qualifies(criterion.0)) || criterion.1.len() == 0
}

/// The selecting criteria, each at its first place.
pub open spec fn selected(criteria: Seq<(u64, Seq<char>)>) -> Seq<(u64, Seq<char>)>
    decreases criteria.len(),
{
    if criteria.len() == 0 {
        Seq::empty()
    } else {
        let before = selected(criteria.drop_last());
        if selects(criteria.last().0) && !before.contains(criteria.last()) {
            before.push(criteria.last())
        } else {
            before
        }
    }
}

/// The qualifying criteria that have a value, each at its first place.
pub open spec fn qualifying(criteria: Seq<(u64, Seq<char>)>) -> Seq<(u64, Seq<char>)>
    decreases criteria.len(),
{
    if criteria.len() == 0 {
        Seq::empty()
    } else {
        let before = qualifying(criteria.drop_last());
        if qualifies(criteria.last().0) && criteria.last().1.len() > 0 && !before.contains(
            criteria.last(),
        ) {
            before.push(criteria.last())
        } else {
            before
        }
    }
}

/// How many extensions a composed answer may carry: the client's page size, at least one and at
/// most [`GALLERY_COMPOSED_IDENTITY_CAP`].
pub open spec fn page_limit(request: GalleryQueryRequest) -> nat {
    if request.filters@.len() > 0 && request.filters@[0].page_size is Some {
        let size = request.filters@[0].page_size->Some_0;
        if size < 1 {
            1
        } else if size > GALLERY_COMPOSED_IDENTITY_CAP {
            GALLERY_COMPOSED_IDENTITY_CAP as nat
        } else {
            size as nat
        }
    } else {
        GALLERY_COMPOSED_IDENTITY_CAP as nat
    }
}

/// How many extensions a composed answer may carry.
pub fn gallery_composed_identity_limit(request: &GalleryQueryRequest) -> (limit: usize)
    ensures
        limit == page_limit(*request),
        1 <= limit <= GALLERY_COMPOSED_IDENTITY_CAP,
{
    if request.filters.len() == 0 {
        return GALLERY_COMPOSED_IDENTITY_CAP;
    }
    match request.filters[0].page_size {
        Some(size) => {
            if size < 1 {
                1
            } else if size > GALLERY_COMPOSED_IDENTITY_CAP as u64 {
                GALLERY_COMPOSED_IDENTITY_CAP
            } else {
                size as usize
            }
        },
        None => GALLERY_COMPOSED_IDENTITY_CAP,
    }
}

/// The client's qualifiers, or nothing where there are more than one composed query may carry.
pub open spec fn query_qualifiers(request: GalleryQueryRequest) -> Option<Seq<(u64, Seq<char>)>> {
    let found = qualifying(all_criteria(request.filters@));
    if found.len() <= GALLERY_COMPOSED_QUALIFIER_CAP {
        Some(found)
    } else {
        None
    }
}

/// The view of optional criteria.
pub open spec fn criteria_opt(criteria: Option<Vec<GalleryCriterion>>) -> Option<
    Seq<(u64, Seq<char>)>,
> {
    match criteria {
        Some(criteria) => Some(criterion_views(criteria@)),
        None => None,
    }
}

/// There are no fewer qualifiers in more criteria.
proof fn lemma_qualifying_grows(criteria: Seq<(u64, Seq<char>)>, i: int)
    requires
        0 <= i <= criteria.len(),
    ensures
        qualifying(criteria.take(i)).len() <= qualifying(criteria).len(),
    decreases criteria.len() - i,
{
    if i < criteria.len() {
        lemma_qualifying_grows(criteria, i + 1);
        assert(criteria.take(i + 1).drop_last() =~= criteria.take(i));
    } else {
        assert(criteria.take(i) =~= criteria);
    }
}

/// The sets of criteria seen, one for each of two filter types.
struct Seen {
    first: StringHashSet,
    second: StringHashSet,
}

impl Seen {
    /// Whether the sets hold exactly `criteria`, which are of the two filter types.
    spec fn holds(&self, criteria: Seq<(u64, Seq<char>)>, first: u64, second: u64) -> bool {
        forall|value: Seq<char>|
            #![trigger self.first@.contains(value)]
            #![trigger self.second@.contains(value)]
            {
                &&& self.first@.contains(value) <==> criteria.contains((first, value))
                &&& self.second@.contains(value) <==> criteria.contains((second, value))
            }
    }

    fn new(Ghost(first): Ghost<u64>, Ghost(second): Ghost<u64>) -> (seen: Seen)
        ensures
            seen.holds(Seq::empty(), first, second),
    {
        Seen { first: StringHashSet::new(), second: StringHashSet::new() }
    }

    /// Notes a criterion, and says whether it is new.
    fn note(
        &mut self,
        criterion: &GalleryCriterion,
        first: u64,
        second: u64,
        Ghost(criteria): Ghost<Seq<(u64, Seq<char>)>>,
    ) -> (new: bool)
        requires
            first != second,
            criterion.filter_type == first || criterion.filter_type == second,
            old(self).holds(criteria, first, second),
        ensures
            new == !criteria.contains(criterion@),
            final(self).holds(
                if new {
                    criteria.push(criterion@)
                } else {
                    criteria
                },
                first,
                second,
            ),
    {
        let value = criterion.value.as_str().to_string();
        let new = if criterion.filter_type == first {
            self.first.insert(value)
        } else {
            self.second.insert(value)
        };
        proof {
            let after = criteria.push(criterion@);
            assert forall|c: (u64, Seq<char>)| #[trigger] after.contains(c) <==> criteria.contains(
                c,
            ) || c == criterion@ by {
                if criteria.contains(c) {
                    let i = choose|i: int| 0 <= i < criteria.len() && criteria[i] == c;
                    assert(after[i] == c);
                }
                if c == criterion@ {
                    assert(after[criteria.len() as int] == c);
                }
            }
        }
        new
    }
}

/// The client's qualifiers, each once and in the client's order, or nothing where there are more
/// than one composed query may carry.
pub fn gallery_query_qualifiers(request: &GalleryQueryRequest) -> (qualifiers: Option<
    Vec<GalleryCriterion>,
>)
    ensures
        criteria_opt(qualifiers) == query_qualifiers(*request),
{
    let criteria = collect_criteria(&request.filters);
    let ghost all = criterion_views(criteria@);
    let mut seen = Seen::new(
        Ghost(GALLERY_TARGET_FILTER),
        Ghost(GALLERY_EXCLUDE_WITH_FLAGS_FILTER),
    );
    let mut qualifiers: Vec<GalleryCriterion> = Vec::new();
    assert(criterion_views(qualifiers@) =~= qualifying(all.take(0)));
    for criterion in it: criteria
        invariant
            it.seq() == criteria@,
            all == criterion_views(criteria@),
            all == all_criteria(request.filters@),
            criterion_views(qualifiers@) == qualifying(all.take(it.index() as int)),
            qualifiers@.len() <= GALLERY_COMPOSED_QUALIFIER_CAP,
            seen.holds(
                qualifying(all.take(it.index() as int)),
                GALLERY_TARGET_FILTER,
                GALLERY_EXCLUDE_WITH_FLAGS_FILTER,
            ),
    {
        let ghost at = it.index() as int;
        let ghost before = qualifying(all.take(at));
        proof {
            assert(all[at] == criterion@);
            assert(all.take(at + 1).drop_last() =~= all.take(at));
            assert(all.take(at + 1).last() == criterion@);
        }
        if (criterion.filter_type == GALLERY_TARGET_FILTER || criterion.filter_type
            == GALLERY_EXCLUDE_WITH_FLAGS_FILTER) && !is_empty(criterion.value.as_str()) {
            let new = seen.note(
                &criterion,
                GALLERY_TARGET_FILTER,
                GALLERY_EXCLUDE_WITH_FLAGS_FILTER,
                Ghost(before),
            );
            if new {
                if qualifiers.len() >= GALLERY_COMPOSED_QUALIFIER_CAP {
                    proof {
                        assert(qualifying(all.take(at + 1)).len() == before.len() + 1);
                        lemma_qualifying_grows(all, at + 1);
                    }
                    return None;
                }
                let ghost held = criterion_views(qualifiers@);
                qualifiers.push(criterion);
                assert(criterion_views(qualifiers@) =~= held.push(criterion@));
            }
        }
    }
    assert(all.take(all.len() as int) =~= all);
    Some(qualifiers)
}

/// The first `limit` criteria.
pub open spec fn page(criteria: Seq<(u64, Seq<char>)>, limit: nat) -> Seq<(u64, Seq<char>)> {
    if criteria.len() <= limit {
        criteria
    } else {
        criteria.take(limit as int)
    }
}

/// Whether the client asks for whole version histories, rather than for the latest versions.
pub open spec fn asks_for_history(flags: u32) -> bool {
    flags & GALLERY_INCLUDE_VERSIONS_FLAG != 0 && flags & GALLERY_LATEST_VERSION_ONLY_FLAG == 0
}

/// The identities and qualifiers that a query is composed from: where it asks for whole version
/// histories, and does so of named extensions only.
pub open spec fn composition_of(request: GalleryQueryRequest) -> Option<
    (Seq<(u64, Seq<char>)>, Seq<(u64, Seq<char>)>),
> {
    let criteria = all_criteria(request.filters@);
    if !asks_for_history(request.flags) {
        None
    } else if exists|i: int| 0 <= i < criteria.len() && foreign(#[trigger] criteria[i]) {
        None
    } else if selected(criteria).len() == 0 {
        None
    } else {
        match query_qualifiers(request) {
            Some(qualifiers) => Some((page(selected(criteria), page_limit(request)), qualifiers)),
            None => None,
        }
    }
}

/// What a client's query is composed from, if it can be: the extensions that it names, in its
/// order, each once and no more than a page of them.
pub fn gallery_composable_criteria(request: &GalleryQueryRequest) -> (composition: Option<
    GalleryComposition,
>)
    ensures
        match composition {
            Some(composition) => composition_of(*request) == Some(
                (
                    criterion_views(composition.identities@),
                    criterion_views(composition.qualifiers@),
                ),
            ),
            None => composition_of(*request) is None,
        },
{
    if request.flags & GALLERY_INCLUDE_VERSIONS_FLAG == 0 || request.flags
        & GALLERY_LATEST_VERSION_ONLY_FLAG != 0 {
        return None;
    }
    let limit: usize = gallery_composed_identity_limit(request);
    let criteria = collect_criteria(&request.filters);
    let ghost all = criterion_views(criteria@);
    let mut seen = Seen::new(
        Ghost(GALLERY_EXTENSION_ID_FILTER),
        Ghost(GALLERY_EXTENSION_NAME_FILTER),
    );
    let mut identities: Vec<GalleryCriterion> = Vec::new();
    assert(criterion_views(identities@) =~= page(selected(all.take(0)), limit as nat));
    for criterion in it: criteria
        invariant
            it.seq() == criteria@,
            all == criterion_views(criteria@),
            all == all_criteria(request.filters@),
            limit == page_limit(*request),
            criterion_views(identities@) == page(
                selected(all.take(it.index() as int)),
                limit as nat,
            ),
            forall|i: int| 0 <= i < it.index() ==> !foreign(#[trigger] all[i]),
            seen.holds(
                selected(all.take(it.index() as int)),
                GALLERY_EXTENSION_ID_FILTER,
                GALLERY_EXTENSION_NAME_FILTER,
            ),
    {
        let ghost at = it.index() as int;
        let ghost before = selected(all.take(at));
        proof {
            assert(all[at] == criterion@);
            assert(all.take(at + 1).drop_last() =~= all.take(at));
            assert(all.take(at + 1).last() == criterion@);
        }
        let selecting = criterion.filter_type == GALLERY_EXTENSION_ID_FILTER
            || criterion.filter_type == GALLERY_EXTENSION_NAME_FILTER;
        let qualifying_only = criterion.filter_type == GALLERY_TARGET_FILTER
            || criterion.filter_type == GALLERY_EXCLUDE_WITH_FLAGS_FILTER;
        if (!selecting && !qualifying_only) || is_empty(criterion.value.as_str()) {
            assert(foreign(all[at]));
            return None;
        }
        if selecting {
            let new = seen.note(
                &criterion,
                GALLERY_EXTENSION_ID_FILTER,
                GALLERY_EXTENSION_NAME_FILTER,
                Ghost(before),
            );
            if new {
                let ghost held = criterion_views(identities@);
                if identities.len() < limit {
                    identities.push(criterion);
                    assert(criterion_views(identities@) =~= held.push(criterion@));
                } else {
                    assert(before.push(criterion@).take(limit as int) =~= before.take(
                        limit as int,
                    ));
                }
                assert(criterion_views(identities@) =~= page(
                    before.push(criterion@),
                    limit as nat,
                ));
            }
        }
    }
    assert(all.take(all.len() as int) =~= all);
    if identities.len() == 0 {
        return None;
    }
    match gallery_query_qualifiers(request) {
        Some(qualifiers) => Some(GalleryComposition { identities, qualifiers }),
        None => None,
    }
}

/// A criterion as JSON.
pub open spec fn criterion_value(criterion: (u64, Seq<char>)) -> JsonValue {
    crate::json::empty_object().with("filterType"@, crate::json::number(criterion.0)).with(
        "value"@,
        JsonValue::Text(criterion.1),
    )
}

/// A criterion as JSON.
pub fn gallery_criterion_json(criterion: &GalleryCriterion) -> (json: Json)
    ensures
        json@ == criterion_value(criterion@),
        crate::json::plain(json@, 123),
{
    let mut json = Json::object();
    proof {
        reveal_strlit("$serde_json::private::RawValue");
        reveal_strlit("filterType");
        reveal_strlit("value");
        assert(crate::json::reserved_key().len() == 30);
        assert("filterType"@.len() == 10);
        assert("value"@.len() == 5);
        crate::json::lemma_plain_empty(123);
    }
    json.insert("filterType", Json::unsigned(criterion.filter_type));
    proof {
        crate::json::lemma_plain_with(
            crate::json::empty_object(),
            "filterType"@,
            crate::json::number(criterion.filter_type),
            123,
        );
        crate::json::lemma_plain_with(
            json@,
            "value"@,
            JsonValue::Text(criterion.value@),
            123,
        );
    }
    json.insert("value", Json::text(criterion.value.as_str()));
    json
}

/// Criteria as JSON.
pub open spec fn criterion_values(criteria: Seq<(u64, Seq<char>)>) -> Seq<JsonValue> {
    criteria.map_values(|criterion: (u64, Seq<char>)| criterion_value(criterion))
}

/// The query for one extension: a page of one, unsorted, of the extension that `identity` selects
/// under `qualifiers`.
pub open spec fn single_id_query(
    identity: (u64, Seq<char>),
    qualifiers: Seq<(u64, Seq<char>)>,
    flags: u32,
) -> JsonValue {
    let filter = crate::json::empty_object().with(
        "criteria"@,
        JsonValue::List(seq![criterion_value(identity)] + criterion_values(qualifiers)),
    ).with("pageNumber"@, crate::json::number(1)).with("pageSize"@, crate::json::number(1)).with(
        "sortBy"@,
        crate::json::number(0),
    ).with("sortOrder"@, crate::json::number(0));
    crate::json::empty_object().with("filters"@, JsonValue::List(seq![filter])).with(
        "flags"@,
        crate::json::number(flags as u64),
    )
}

/// The query for one extension.
pub fn gallery_single_id_query(
    identity: &GalleryCriterion,
    qualifiers: &Vec<GalleryCriterion>,
    flags: u32,
) -> (query: Json)
    ensures
        query@ == single_id_query(identity@, criterion_views(qualifiers@), flags),
        crate::json::plain(query@, 127),
{
    let mut criteria: Vec<Json> = Vec::new();
    criteria.push(gallery_criterion_json(identity));
    let ghost wanted = criterion_values(criterion_views(qualifiers@));
    let ghost first = criterion_value(identity@);
    assert(crate::json::json_views(criteria@) =~= seq![first] + wanted.take(0));
    let mut i: usize = 0;
    while i < qualifiers.len()
        invariant
            i <= qualifiers@.len(),
            wanted == criterion_values(criterion_views(qualifiers@)),
            crate::json::json_views(criteria@) == seq![first] + wanted.take(i as int),
            forall|k: int|
                0 <= k < criteria@.len() ==> crate::json::plain((#[trigger] criteria@[k])@, 123),
        decreases qualifiers@.len() - i,
    {
        let ghost held = crate::json::json_views(criteria@);
        let next = gallery_criterion_json(&qualifiers[i]);
        criteria.push(next);
        assert(wanted[i as int] == next@);
        assert(crate::json::json_views(criteria@) =~= held.push(next@));
        assert(crate::json::json_views(criteria@) =~= seq![first] + wanted.take(i + 1));
        i += 1;
    }
    assert(wanted.take(i as int) =~= wanted);
    proof {
        reveal_strlit("$serde_json::private::RawValue");
        reveal_strlit("criteria");
        reveal_strlit("pageNumber");
        reveal_strlit("pageSize");
        reveal_strlit("sortBy");
        reveal_strlit("sortOrder");
        reveal_strlit("filters");
        reveal_strlit("flags");
        assert(crate::json::reserved_key().len() == 30);
        assert("criteria"@.len() == 8);
        assert("pageNumber"@.len() == 10);
        assert("pageSize"@.len() == 8);
        assert("sortBy"@.len() == 6);
        assert("sortOrder"@.len() == 9);
        assert("filters"@.len() == 7);
        assert("flags"@.len() == 5);
        crate::json::lemma_plain_empty(125);
        crate::json::lemma_plain_empty(127);
    }
    let mut filter = Json::object();
    set_plain(&mut filter, "criteria", Json::list(criteria), Ghost(125));
    set_plain(&mut filter, "pageNumber", Json::unsigned(1), Ghost(125));
    set_plain(&mut filter, "pageSize", Json::unsigned(1), Ghost(125));
    set_plain(&mut filter, "sortBy", Json::unsigned(0), Ghost(125));
    set_plain(&mut filter, "sortOrder", Json::unsigned(0), Ghost(125));
    let mut filters: Vec<Json> = Vec::new();
    filters.push(filter);
    assert(crate::json::json_views(filters@) =~= seq![filter@]);
    let mut query = Json::object();
    set_plain(&mut query, "filters", Json::list(filters), Ghost(127));
    set_plain(&mut query, "flags", Json::unsigned(flags as u64), Ghost(127));
    query
}

/// Sets a plain member of a plain object.
fn set_plain(object: &mut Json, key: &str, value: Json, Ghost(depth): Ghost<nat>)
    requires
        old(object)@ is Object,
        crate::json::plain(old(object)@, depth),
        crate::json::plain(value@, (depth - 1) as nat),
        key@ != crate::json::reserved_key(),
    ensures
        final(object)@ == old(object)@.with(key@, value@),
        crate::json::plain(final(object)@, depth),
{
    proof {
        crate::json::lemma_plain_with(object@, key@, value@, depth);
    }
    object.insert(key, value);
}

/// The bytes of a query.
pub fn gallery_query_body(query: Json) -> (body: Vec<u8>)
    ensures
        body@ == crate::json::written_json(query@),
        crate::json::plain(query@, 127) ==> crate::json::parsed_json(body@) == Some(query@),
{
    query.encode()
}

/// The flags of a document, where it has some that fit.
pub open spec fn flags_of(document: JsonValue) -> Option<u32> {
    match document.get("flags"@) {
        Some(flags) => match flags.as_u64() {
            Some(flags) => if flags <= u32::MAX {
                Some(flags as u32)
            } else {
                None
            },
            None => None,
        },
        None => None,
    }
}

/// The flags of a query, where it is JSON and has some that fit.
pub fn gallery_query_flags(body: &[u8]) -> (flags: Option<u32>)
    ensures
        flags == (match crate::json::parsed_json(body@) {
            Some(document) => flags_of(document),
            None => None,
        }),
{
    match Json::parse(body) {
        Some(query) => document_flags(&query),
        None => None,
    }
}

/// The flags of a document, where it has some that fit.
pub fn document_flags(document: &Json) -> (flags: Option<u32>)
    ensures
        flags == flags_of(document@),
{
    match document.get("flags") {
        Some(flags) => match flags.as_u64() {
            Some(flags) => if flags <= u32::MAX as u64 {
                Some(flags as u32)
            } else {
                None
            },
            None => None,
        },
        None => None,
    }
}

/// A query with its flags replaced and everything else as it was, where it is an object.
pub open spec fn with_flags(document: JsonValue, flags: u32) -> Option<JsonValue> {
    if document is Object {
        Some(document.with("flags"@, crate::json::number(flags as u64)))
    } else {
        None
    }
}

/// Replaces the flags of a document, where it is an object.
pub fn replace_flags(document: Json, flags: u32) -> (replaced: Option<Json>)
    ensures
        crate::json::json_view_opt(replaced) == with_flags(document@, flags),
        match replaced {
            Some(replaced) => {
                &&& flags_of(replaced@) == Some(flags)
                &&& crate::json::plain(document@, 127) ==> crate::json::plain(replaced@, 127)
            },
            None => true,
        },
{
    let mut document = document;
    if let Json::Object(_) = document {
        let number = Json::unsigned(flags as u64);
        proof {
            reveal_strlit("$serde_json::private::RawValue");
            reveal_strlit("flags");
            assert(crate::json::reserved_key().len() == 30);
            assert("flags"@.len() == 5);
            if crate::json::plain(document@, 127) {
                crate::json::lemma_plain_with(document@, "flags"@, number@, 127);
            }
        }
        document.insert("flags", number);
        Some(document)
    } else {
        None
    }
}

/// The view of optional bytes.
pub open spec fn bytes_opt(bytes: Option<Vec<u8>>) -> Option<Seq<u8>> {
    match bytes {
        Some(bytes) => Some(bytes@),
        None => None,
    }
}

/// The client's own query under other flags, where it is a JSON object.
pub open spec fn reflagged(body: Seq<u8>, flags: u32) -> Option<Seq<u8>> {
    match crate::json::parsed_json(body) {
        Some(document) => match with_flags(document, flags) {
            Some(replaced) => Some(crate::json::written_json(replaced)),
            None => None,
        },
        None => None,
    }
}

/// The client's own query under other flags. A plain query is read back as it was, but for its
/// flags, which are the ones given.
pub fn gallery_query_with_flags(body: &[u8], flags: u32) -> (reissued: Option<Vec<u8>>)
    ensures
        bytes_opt(reissued) == reflagged(body@, flags),
        match (reissued, crate::json::parsed_json(body@)) {
            (Some(reissued), Some(document)) => crate::json::plain(document, 127) ==> {
                &&& crate::json::parsed_json(reissued@) == with_flags(document, flags)
                &&& flags_of(with_flags(document, flags)->Some_0) == Some(flags)
            },
            _ => true,
        },
{
    match Json::parse(body) {
        Some(document) => match replace_flags(document, flags) {
            Some(replaced) => Some(replaced.encode()),
            None => None,
        },
        None => None,
    }
}

/// What looking for identities in a list of extension records comes to.
pub enum Scan {
    /// All records were looked at: the names found.
    More(Seq<Seq<char>>),
    /// There are enough names; the records from here on are not looked at.
    Full(Seq<Seq<char>>),
    /// A record has no identity.
    Invalid,
}

/// The names in a list of extension records, after the ones already `found`.
pub open spec fn scan_extensions(
    extensions: Seq<JsonValue>,
    limit: nat,
    found: Seq<Seq<char>>,
) -> Scan
    decreases extensions.len(),
{
    if extensions.len() == 0 {
        Scan::More(found)
    } else if found.len() >= limit {
        Scan::Full(found)
    } else {
        match crate::response::identity_of(extensions[0]) {
            Some((publisher, name)) => {
                let id = crate::urls::extension_id(publisher, name);
                scan_extensions(
                    extensions.drop_first(),
                    limit,
                    if found.contains(id) {
                        found
                    } else {
                        found.push(id)
                    },
                )
            },
            None => Scan::Invalid,
        }
    }
}

/// The names in a list of result records, after the ones already `found`.
pub open spec fn scan_results(
    results: Seq<JsonValue>,
    limit: nat,
    found: Seq<Seq<char>>,
) -> Option<Seq<Seq<char>>>
    decreases results.len(),
{
    if results.len() == 0 {
        Some(found)
    } else {
        match results[0].list_at("extensions"@) {
            Some(extensions) => match scan_extensions(extensions, limit, found) {
                Scan::More(found) => scan_results(results.drop_first(), limit, found),
                Scan::Full(found) => Some(found),
                Scan::Invalid => None,
            },
            None => None,
        }
    }
}

/// The criteria that select extensions by the given names.
pub open spec fn name_criteria(names: Seq<Seq<char>>) -> Seq<(u64, Seq<char>)> {
    names.map_values(|name: Seq<char>| (GALLERY_EXTENSION_NAME_FILTER, name))
}

/// The identities that a page of results names, each once, and no more than `limit`.
pub open spec fn response_identities(response: JsonValue, limit: nat) -> Option<
    Seq<(u64, Seq<char>)>,
> {
    match response.list_at("results"@) {
        Some(results) => match scan_results(results, limit, Seq::empty()) {
            Some(names) => Some(name_criteria(names)),
            None => None,
        },
        None => None,
    }
}

/// Names found so far, with the set that tells whether one is new.
struct Found {
    criteria: Vec<GalleryCriterion>,
    seen: StringHashSet,
}

impl Found {
    /// Whether exactly `names` are found.
    spec fn holds(&self, names: Seq<Seq<char>>) -> bool {
        &&& criterion_views(self.criteria@) == name_criteria(names)
        &&& forall|name: Seq<char>| #[trigger]
            self.seen@.contains(name) <==> names.contains(name)
    }

    /// Adds a name, unless it is found already.
    fn add(&mut self, name: String, Ghost(names): Ghost<Seq<Seq<char>>>)
        requires
            old(self).holds(names),
        ensures
            final(self).holds(
                if names.contains(name@) {
                    names
                } else {
                    names.push(name@)
                },
            ),
    {
        let new = self.seen.insert(name.as_str().to_string());
        if new {
            let ghost held = criterion_views(self.criteria@);
            let criterion = GalleryCriterion {
                filter_type: GALLERY_EXTENSION_NAME_FILTER,
                value: name,
            };
            self.criteria.push(criterion);
            proof {
                let after = names.push(name@);
                assert(criterion_views(self.criteria@) =~= held.push(criterion@));
                assert(name_criteria(after) =~= name_criteria(names).push(criterion@));
                assert forall|other: Seq<char>| #[trigger] after.contains(other) <==> names.contains(
                    other,
                ) || other == name@ by {
                    if names.contains(other) {
                        let i = choose|i: int| 0 <= i < names.len() && names[i] == other;
                        assert(after[i] == other);
                    }
                    if other == name@ {
                        assert(after[names.len() as int] == other);
                    }
                }
            }
        } else {
            assert(old(self).seen@.insert(name@) =~= old(self).seen@);
        }
    }
}

/// The view of criteria that may have been refused.
pub open spec fn criteria_or_error(criteria: Result<Vec<GalleryCriterion>, GalleryError>) -> Result<
    Seq<(u64, Seq<char>)>,
    GalleryError,
> {
    match criteria {
        Ok(criteria) => Ok(criterion_views(criteria@)),
        Err(error) => Err(error),
    }
}

/// The identities that a page of results names, in its order, each once, and no more than
/// `limit`.
pub fn gallery_response_identities(response: &Json, limit: usize) -> (identities: Result<
    Vec<GalleryCriterion>,
    GalleryError,
>)
    ensures
        criteria_or_error(identities) == (match response_identities(response@, limit as nat) {
            Some(criteria) => Ok::<Seq<(u64, Seq<char>)>, GalleryError>(criteria),
            None => Err(GalleryError::InvalidResponse),
        }),
{
    let results = match response.get_list("results") {
        Some(results) => results,
        None => return Err(invalid_gallery_response()),
    };
    let ghost records = crate::json::json_views(results@);
    let ghost mut names: Seq<Seq<char>> = Seq::empty();
    let mut found = Found { criteria: Vec::new(), seen: StringHashSet::new() };
    assert(criterion_views(found.criteria@) =~= name_criteria(names));
    assert(records.skip(0) =~= records);
    let mut i: usize = 0;
    while i < results.len()
        invariant
            i <= results@.len(),
            records == crate::json::json_views(results@),
            response@.list_at("results"@) == Some(records),
            found.holds(names),
            scan_results(records.skip(i as int), limit as nat, names) == scan_results(
                records,
                limit as nat,
                Seq::empty(),
            ),
        decreases results@.len() - i,
    {
        assert(records.skip(i as int)[0] == results@[i as int]@);
        assert(records.skip(i as int).drop_first() =~= records.skip(i + 1));
        let extensions = match results[i].get_list("extensions") {
            Some(extensions) => extensions,
            None => return Err(invalid_gallery_response()),
        };
        let ghost inner = crate::json::json_views(extensions@);
        let ghost start = names;
        assert(inner.skip(0) =~= inner);
        let mut j: usize = 0;
        while j < extensions.len()
            invariant
                i < results@.len(),
                j <= extensions@.len(),
                inner == crate::json::json_views(extensions@),
                records == crate::json::json_views(results@),
                response@.list_at("results"@) == Some(records),
                records.skip(i as int).len() > 0,
                records.skip(i as int)[0].list_at("extensions"@) == Some(inner),
                found.holds(names),
                scan_results(records.skip(i as int), limit as nat, start) == scan_results(
                    records,
                    limit as nat,
                    Seq::empty(),
                ),
                scan_extensions(inner.skip(j as int), limit as nat, names) == scan_extensions(
                    inner,
                    limit as nat,
                    start,
                ),
            decreases extensions@.len() - j,
        {
            proof {
                assert(inner.skip(j as int)[0] == extensions@[j as int]@);
                assert(inner.skip(j as int).drop_first() =~= inner.skip(j + 1));
                assert(criterion_views(found.criteria@).len() == names.len());
            }
            if found.criteria.len() >= limit {
                return Ok(found.criteria);
            }
            let (publisher, name, _) = match gallery_extension_identity(&extensions[j]) {
                Some(identity) => identity,
                None => return Err(invalid_gallery_response()),
            };
            let id = build_extension_id(publisher.as_str(), name.as_str());
            let ghost id_view = id@;
            found.add(id, Ghost(names));
            proof {
                if !names.contains(id_view) {
                    names = names.push(id_view);
                }
            }
            j += 1;
        }
        assert(inner.skip(j as int).len() == 0);
        i += 1;
    }
    assert(records.skip(i as int).len() == 0);
    Ok(found.criteria)
}

/// Where a criterion first stands.
pub open spec fn first_place(
    criteria: Seq<(u64, Seq<char>)>,
    criterion: (u64, Seq<char>),
    at: int,
) -> bool {
    &&& 0 <= at < criteria.len()
    &&& criteria[at] == criterion
    &&& forall|i: int| 0 <= i < at ==> #[trigger] criteria[i] != criterion
}

/// Whether `chosen` holds criteria of `criteria` only, each once, in the order in which they first
/// stand.
pub open spec fn in_first_order(
    criteria: Seq<(u64, Seq<char>)>,
    chosen: Seq<(u64, Seq<char>)>,
) -> bool {
    &&& chosen.no_duplicates()
    &&& forall|i: int| 0 <= i < chosen.len() ==> criteria.contains(#[trigger] chosen[i])
    &&& forall|i: int, j: int, a: int, b: int|
        0 <= i < j < chosen.len() && #[trigger] first_place(criteria, chosen[i], a)
            && #[trigger] first_place(criteria, chosen[j], b) ==> a < b
}

/// Keeping criteria in order when one more comes.
proof fn lemma_first_order_step(
    criteria: Seq<(u64, Seq<char>)>,
    chosen: Seq<(u64, Seq<char>)>,
    take: bool,
)
    requires
        criteria.len() > 0,
        in_first_order(criteria.drop_last(), chosen),
        take ==> !chosen.contains(criteria.last()) && !criteria.drop_last().contains(
            criteria.last(),
        ),
    ensures
        in_first_order(
            criteria,
            if take {
                chosen.push(criteria.last())
            } else {
                chosen
            },
        ),
{
    let front = criteria.drop_last();
    let after = if take {
        chosen.push(criteria.last())
    } else {
        chosen
    };
    assert forall|i: int| 0 <= i < after.len() implies criteria.contains(#[trigger] after[i]) by {
        if i < chosen.len() {
            assert(front.contains(chosen[i]));
            let k = choose|k: int| 0 <= k < front.len() && front[k] == chosen[i];
            assert(criteria[k] == after[i]);
        } else {
            assert(criteria[criteria.len() - 1] == after[i]);
        }
    }
    assert forall|i: int, j: int, a: int, b: int|
        0 <= i < j < after.len() && #[trigger] first_place(criteria, after[i], a)
            && #[trigger] first_place(criteria, after[j], b) implies a < b by {
        assert(front.contains(chosen[i]));
        let k = choose|k: int| 0 <= k < front.len() && front[k] == chosen[i];
        assert(criteria[k] == after[i]);
        assert(a <= k);
        assert(first_place(front, chosen[i], a));
        if j < chosen.len() {
            assert(front.contains(chosen[j]));
            let l = choose|l: int| 0 <= l < front.len() && front[l] == chosen[j];
            assert(criteria[l] == after[j]);
            assert(b <= l);
            assert(first_place(front, chosen[j], b));
        } else {
            if b < front.len() {
                assert(front[b] == criteria.last());
                assert(front.contains(criteria.last()));
            }
        }
    }
    if take {
        assert forall|i: int, j: int| 0 <= i < after.len() && 0 <= j < after.len() && i
            != j implies after[i] != after[j] by {
            if i < chosen.len() && j < chosen.len() {
            } else if i < chosen.len() {
                assert(chosen.contains(chosen[i]));
            } else {
                assert(chosen.contains(chosen[j]));
            }
        }
    }
}

/// The selecting criteria come in the client's order, each once, and none is lost.
pub proof fn selected_criteria_keep_the_clients_order(criteria: Seq<(u64, Seq<char>)>)
    ensures
        in_first_order(criteria, selected(criteria)),
        forall|i: int|
            0 <= i < selected(criteria).len() ==> selects((#[trigger] selected(criteria)[i]).0),
        forall|i: int|
            0 <= i < criteria.len() && selects((#[trigger] criteria[i]).0) ==> selected(
                criteria,
            ).contains(criteria[i]),
    decreases criteria.len(),
{
    if criteria.len() > 0 {
        let front = criteria.drop_last();
        let before = selected(front);
        let last = criteria.last();
        selected_criteria_keep_the_clients_order(front);
        let take = selects(last.0) && !before.contains(last);
        if take && front.contains(last) {
            let k = choose|k: int| 0 <= k < front.len() && front[k] == last;
            assert(selects(front[k].0));
        }
        lemma_first_order_step(criteria, before, take);
        assert forall|i: int|
            0 <= i < criteria.len() && selects((#[trigger] criteria[i]).0) implies selected(
            criteria,
        ).contains(criteria[i]) by {
            if i < front.len() {
                assert(front[i] == criteria[i]);
                assert(before.contains(front[i]));
                let k = choose|k: int| 0 <= k < before.len() && before[k] == front[i];
                assert(selected(criteria)[k] == criteria[i]);
            } else if take {
                assert(selected(criteria)[before.len() as int] == last);
            }
        }
    }
}

/// The qualifying criteria come in the client's order, each once, and none that has a value is
/// lost.
pub proof fn qualifying_criteria_keep_the_clients_order(criteria: Seq<(u64, Seq<char>)>)
    ensures
        in_first_order(criteria, qualifying(criteria)),
        forall|i: int|
            0 <= i < qualifying(criteria).len() ==> qualifies(
                (#[trigger] qualifying(criteria)[i]).0,
            ) && qualifying(criteria)[i].1.len() > 0,
        forall|i: int|
            0 <= i < criteria.len() && qualifies((#[trigger] criteria[i]).0)
                && criteria[i].1.len() > 0 ==> qualifying(criteria).contains(criteria[i]),
    decreases criteria.len(),
{
    if criteria.len() > 0 {
        let front = criteria.drop_last();
        let before = qualifying(front);
        let last = criteria.last();
        qualifying_criteria_keep_the_clients_order(front);
        let take = qualifies(last.0) && last.1.len() > 0 && !before.contains(last);
        if take && front.contains(last) {
            let k = choose|k: int| 0 <= k < front.len() && front[k] == last;
            assert(qualifies(front[k].0));
        }
        lemma_first_order_step(criteria, before, take);
        assert forall|i: int|
            0 <= i < criteria.len() && qualifies((#[trigger] criteria[i]).0)
                && criteria[i].1.len() > 0 implies qualifying(criteria).contains(criteria[i]) by {
            if i < front.len() {
                assert(front[i] == criteria[i]);
                assert(before.contains(front[i]));
                let k = choose|k: int| 0 <= k < before.len() && before[k] == front[i];
                assert(qualifying(criteria)[k] == criteria[i]);
            } else if take {
                assert(qualifying(criteria)[before.len() as int] == last);
            }
        }
    }
}

/// A composition is never empty and never more than a page of at most
/// [`GALLERY_COMPOSED_IDENTITY_CAP`] extensions, replays at most
/// [`GALLERY_COMPOSED_QUALIFIER_CAP`] qualifiers, and holds what the client sent, in the client's
/// order, each once.
pub proof fn compositions_are_bounded(request: GalleryQueryRequest)
    requires
        composition_of(request) is Some,
    ensures
        ({
            let (identities, qualifiers) = composition_of(request)->Some_0;
            let criteria = all_criteria(request.filters@);
            &&& 1 <= identities.len() <= page_limit(request) <= GALLERY_COMPOSED_IDENTITY_CAP
            &&& qualifiers.len() <= GALLERY_COMPOSED_QUALIFIER_CAP
            &&& in_first_order(criteria, identities)
            &&& in_first_order(criteria, qualifiers)
            &&& forall|i: int|
                0 <= i < identities.len() ==> selects((#[trigger] identities[i]).0)
                    && identities[i].1.len() > 0
            &&& forall|i: int|
                0 <= i < qualifiers.len() ==> qualifies((#[trigger] qualifiers[i]).0)
        }),
{
    let criteria = all_criteria(request.filters@);
    let (identities, qualifiers) = composition_of(request)->Some_0;
    selected_criteria_keep_the_clients_order(criteria);
    qualifying_criteria_keep_the_clients_order(criteria);
    let chosen = selected(criteria);
    assert forall|i: int| 0 <= i < identities.len() implies selects((#[trigger] identities[i]).0)
        && identities[i].1.len() > 0 by {
        assert(identities[i] == chosen[i]);
        assert(criteria.contains(chosen[i]));
        let k = choose|k: int| 0 <= k < criteria.len() && criteria[k] == chosen[i];
        assert(!foreign(criteria[k]));
    }
    assert forall|i: int, j: int, a: int, b: int|
        0 <= i < j < identities.len() && #[trigger] first_place(criteria, identities[i], a)
            && #[trigger] first_place(criteria, identities[j], b) implies a < b by {
        assert(first_place(criteria, chosen[i], a));
        assert(first_place(criteria, chosen[j], b));
    }
    assert forall|i: int| 0 <= i < identities.len() implies criteria.contains(
        #[trigger] identities[i],
    ) by {
        assert(identities[i] == chosen[i]);
    }
}

proof fn lemma_scan_extensions(extensions: Seq<JsonValue>, limit: nat, found: Seq<Seq<char>>)
    requires
        found.no_duplicates(),
        found.len() <= limit,
    ensures
        match scan_extensions(extensions, limit, found) {
            Scan::More(names) | Scan::Full(names) => names.no_duplicates() && names.len() <= limit,
            Scan::Invalid => true,
        },
    decreases extensions.len(),
{
    if extensions.len() > 0 && found.len() < limit {
        if let Some((publisher, name)) = crate::response::identity_of(extensions[0]) {
            let id = crate::urls::extension_id(publisher, name);
            if found.contains(id) {
                lemma_scan_extensions(extensions.drop_first(), limit, found);
            } else {
                let more = found.push(id);
                assert forall|i: int, j: int| 0 <= i < more.len() && 0 <= j < more.len() && i
                    != j implies more[i] != more[j] by {
                    if i == found.len() {
                        assert(found.contains(found[j]));
                    } else if j == found.len() {
                        assert(found.contains(found[i]));
                    }
                }
                lemma_scan_extensions(extensions.drop_first(), limit, more);
            }
        }
    }
}

proof fn lemma_scan_results(results: Seq<JsonValue>, limit: nat, found: Seq<Seq<char>>)
    requires
        found.no_duplicates(),
        found.len() <= limit,
    ensures
        match scan_results(results, limit, found) {
            Some(names) => names.no_duplicates() && names.len() <= limit,
            None => true,
        },
    decreases results.len(),
{
    if results.len() > 0 {
        if let Some(extensions) = results[0].list_at("extensions"@) {
            lemma_scan_extensions(extensions, limit, found);
            if let Scan::More(names) = scan_extensions(extensions, limit, found) {
                lemma_scan_results(results.drop_first(), limit, names);
            }
        }
    }
}

/// The identities of a page of results are no more than asked for, and each is there once.
pub proof fn response_identities_are_bounded(response: JsonValue, limit: nat)
    requires
        response_identities(response, limit) is Some,
    ensures
        response_identities(response, limit)->Some_0.len() <= limit,
        response_identities(response, limit)->Some_0.no_duplicates(),
{
    let results = response.list_at("results"@)->Some_0;
    lemma_scan_results(results, limit, Seq::empty());
    let names = scan_results(results, limit, Seq::empty())->Some_0;
    let criteria = name_criteria(names);
    assert forall|i: int, j: int| 0 <= i < criteria.len() && 0 <= j < criteria.len() && i
        != j implies criteria[i] != criteria[j] by {
        assert(names[i] != names[j]);
    }
}

} // verus!
