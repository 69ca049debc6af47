//! The envelope around extension records: what wraps them, how they are counted, and where the
//! first of them stands.

use vstd::prelude::*;

use crate::json::{Json, JsonValue};
use crate::text::same_text;

verus! {

/// `items`, each changed by `f`.
pub open spec fn map_each(items: Seq<JsonValue>, f: spec_fn(JsonValue) -> JsonValue) -> Seq<
    JsonValue,
> {
    Seq::new(items.len(), |i: int| f(items[i]))
}

/// `count` less `removed`, not below zero.
pub open spec fn less(count: u64, removed: nat) -> u64 {
    if removed <= count {
        (count - removed) as u64
    } else {
        0
    }
}

/// A count record with `removed` taken off, where it counts all matching extensions.
pub open spec fn reconciled_item(item: JsonValue, removed: nat) -> JsonValue {
    match item.get("count"@) {
        Some(count) => if item.text_at("name"@) == Some("TotalCount"@) && count.as_u64() is Some {
            item.with("count"@, crate::json::number(less(count.as_u64()->Some_0, removed)))
        } else {
            item
        },
        None => item,
    }
}

/// The change that takes `removed` off count records.
pub open spec fn item_change(removed: nat) -> spec_fn(JsonValue) -> JsonValue {
    |item: JsonValue| reconciled_item(item, removed)
}

/// A metadata record with `removed` taken off its counts, where it is about counts.
pub open spec fn reconciled_entry(entry: JsonValue, removed: nat) -> JsonValue {
    match entry.list_at("metadataItems"@) {
        Some(items) => if entry.text_at("metadataType"@) == Some("ResultCount"@) {
            entry.with("metadataItems"@, JsonValue::List(map_each(items, item_change(removed))))
        } else {
            entry
        },
        None => entry,
    }
}

/// The change that takes `removed` off the counts of metadata records.
pub open spec fn entry_change(removed: nat) -> spec_fn(JsonValue) -> JsonValue {
    |entry: JsonValue| reconciled_entry(entry, removed)
}

/// A result record with `removed` taken off its counts of matching extensions, where it has any.
pub open spec fn reconciled(result: JsonValue, removed: nat) -> JsonValue {
    match result.list_at("resultMetadata"@) {
        Some(entries) => result.with(
            "resultMetadata"@,
            JsonValue::List(map_each(entries, entry_change(removed))),
        ),
        None => result,
    }
}

/// Takes `removed` off a count record.
fn reconcile_item(item: Json, removed: usize) -> (after: Json)
    ensures
        after@ == reconciled_item(item@, removed as nat),
{
    let mut item = item;
    let total = match item.get_str("name") {
        Some(name) => same_text(name, "TotalCount"),
        None => false,
    };
    if !total {
        return item;
    }
    let count: u64 = match item.get("count") {
        Some(count) => match count.as_u64() {
            Some(count) => count,
            None => return item,
        },
        None => return item,
    };
    let left: u64 = if removed as u64 <= count {
        count - removed as u64
    } else {
        0
    };
    item.insert("count", Json::unsigned(left));
    item
}

/// Takes `removed` off count records.
fn reconcile_items(items: Vec<Json>, removed: usize) -> (after: Vec<Json>)
    ensures
        crate::json::json_views(after@) == map_each(
            crate::json::json_views(items@),
            item_change(removed as nat),
        ),
{
    let mut after: Vec<Json> = Vec::new();
    let ghost f = item_change(removed as nat);
    for item in it: items
        invariant
            it.seq() == items@,
            f == item_change(removed as nat),
            after@.len() == it.index(),
            forall|i: int| 0 <= i < it.index() ==> (#[trigger] after@[i])@ == f(items@[i]@),
    {
        after.push(reconcile_item(item, removed));
    }
    assert(crate::json::json_views(after@) =~= map_each(crate::json::json_views(items@), f));
    after
}

/// Takes `removed` off the counts of a metadata record.
fn reconcile_entry(entry: Json, removed: usize) -> (after: Json)
    ensures
        after@ == reconciled_entry(entry@, removed as nat),
{
    let ghost whole = entry@;
    let mut entry = entry;
    let counts = match entry.get_str("metadataType") {
        Some(kind) => same_text(kind, "ResultCount"),
        None => false,
    };
    if !counts {
        return entry;
    }
    let items = match entry.take_list("metadataItems") {
        Some(items) => items,
        None => return entry,
    };
    let done = reconcile_items(items, removed);
    entry.insert("metadataItems", Json::list(done));
    proof {
        crate::response::lemma_set_twice(
            whole,
            "metadataItems"@,
            JsonValue::Null,
            JsonValue::List(crate::json::json_views(done@)),
        );
    }
    entry
}

/// Takes `removed` off the counts of metadata records.
fn reconcile_entries(entries: Vec<Json>, removed: usize) -> (after: Vec<Json>)
    ensures
        crate::json::json_views(after@) == map_each(
            crate::json::json_views(entries@),
            entry_change(removed as nat),
        ),
{
    let mut after: Vec<Json> = Vec::new();
    let ghost f = entry_change(removed as nat);
    for entry in it: entries
        invariant
            it.seq() == entries@,
            f == entry_change(removed as nat),
            after@.len() == it.index(),
            forall|i: int| 0 <= i < it.index() ==> (#[trigger] after@[i])@ == f(entries@[i]@),
    {
        after.push(reconcile_entry(entry, removed));
    }
    assert(crate::json::json_views(after@) =~= map_each(crate::json::json_views(entries@), f));
    after
}

/// Takes `removed` off a result record's counts of matching extensions. Those counts span every
/// page, so only what was removed comes off; a record without counts stays without.
pub fn reconcile_gallery_result_count(result: Json, removed: usize) -> (after: Json)
    ensures
        after@ == reconciled(result@, removed as nat),
{
    let ghost whole = result@;
    let mut result = result;
    let entries = match result.take_list("resultMetadata") {
        Some(entries) => entries,
        None => return result,
    };
    let done = reconcile_entries(entries, removed);
    result.insert("resultMetadata", Json::list(done));
    proof {
        crate::response::lemma_set_twice(
            whole,
            "resultMetadata"@,
            JsonValue::Null,
            JsonValue::List(crate::json::json_views(done@)),
        );
    }
    result
}

/// The metadata that counts `total` extensions.
pub open spec fn count_metadata(total: nat) -> JsonValue {
    let item = crate::json::empty_object().with("name"@, JsonValue::Text("TotalCount"@)).with(
        "count"@,
        crate::json::number(total as u64),
    );
    JsonValue::List(
        seq![
            crate::json::empty_object().with(
                "metadataType"@,
                JsonValue::Text("ResultCount"@),
            ).with("metadataItems"@, JsonValue::List(seq![item])),
        ],
    )
}

/// The document that wraps extension records, under the given metadata or else their own count.
pub open spec fn enveloped(
    extensions: Seq<JsonValue>,
    result_metadata: Option<JsonValue>,
) -> JsonValue {
    let result = crate::json::empty_object().with("extensions"@, JsonValue::List(extensions)).with(
        "resultMetadata"@,
        match result_metadata {
            Some(metadata) => metadata,
            None => count_metadata(extensions.len()),
        },
    );
    crate::json::empty_object().with("results"@, JsonValue::List(seq![result]))
}

/// A list of one item.
fn list_of(item: Json) -> (list: Json)
    ensures
        list@ == JsonValue::List(seq![item@]),
{
    let mut items: Vec<Json> = Vec::new();
    items.push(item);
    assert(crate::json::json_views(items@) =~= seq![item@]);
    Json::list(items)
}

/// Wraps extension records in the document that clients expect. Where the upstream counted the
/// matching extensions, its count goes along; else the records are counted.
pub fn gallery_results_envelope(extensions: Vec<Json>, result_metadata: Option<Json>) -> (envelope:
    Json)
    ensures
        envelope@ == enveloped(
            crate::json::json_views(extensions@),
            crate::json::json_view_opt(result_metadata),
        ),
{
    let total: usize = extensions.len();
    let mut result = Json::object();
    result.insert("extensions", Json::list(extensions));
    match result_metadata {
        Some(metadata) => {
            result.insert("resultMetadata", metadata);
        },
        None => {
            let mut item = Json::object();
            item.insert("name", Json::text("TotalCount"));
            item.insert("count", Json::unsigned(total as u64));
            let mut entry = Json::object();
            entry.insert("metadataType", Json::text("ResultCount"));
            entry.insert("metadataItems", list_of(item));
            result.insert("resultMetadata", list_of(entry));
        },
    }
    let mut envelope = Json::object();
    envelope.insert("results", list_of(result));
    envelope
}

/// The first result record of a document.
pub open spec fn first_result(document: JsonValue) -> Option<JsonValue> {
    match document.get("results"@) {
        Some(results) => results.first(),
        None => None,
    }
}

/// The first extension record of a document.
pub open spec fn first_extension(document: JsonValue) -> Option<JsonValue> {
    match first_result(document) {
        Some(result) => match result.get("extensions"@) {
            Some(extensions) => extensions.first(),
            None => None,
        },
        None => None,
    }
}

/// The metadata of the first result record of a document.
pub open spec fn first_metadata(document: JsonValue) -> Option<JsonValue> {
    match first_result(document) {
        Some(result) => result.get("resultMetadata"@),
        None => None,
    }
}

/// A copy of the first extension record of a document.
pub fn first_extension_of(document: &Json) -> (extension: Option<Json>)
    ensures
        crate::json::json_view_opt(extension) == first_extension(document@),
{
    match document.get("results") {
        Some(results) => match results.first() {
            Some(result) => match result.get("extensions") {
                Some(extensions) => match extensions.first() {
                    Some(extension) => Some(extension.duplicate()),
                    None => None,
                },
                None => None,
            },
            None => None,
        },
        None => None,
    }
}

/// A copy of the metadata of the first result record of a document.
pub fn first_metadata_of(document: &Json) -> (metadata: Option<Json>)
    ensures
        crate::json::json_view_opt(metadata) == first_metadata(document@),
{
    match document.get("results") {
        Some(results) => match results.first() {
            Some(result) => match result.get("resultMetadata") {
                Some(metadata) => Some(metadata.duplicate()),
                None => None,
            },
            None => None,
        },
        None => None,
    }
}

/// A document that wraps extension records has the first of them first, and the metadata it was
/// given.
pub proof fn envelopes_keep_what_they_wrap(
    extensions: Seq<JsonValue>,
    result_metadata: Option<JsonValue>,
)
    ensures
        first_extension(enveloped(extensions, result_metadata)) == (if extensions.len() > 0 {
            Some(extensions[0])
        } else {
            None
        }),
        first_metadata(enveloped(extensions, result_metadata)) == Some(
            match result_metadata {
                Some(metadata) => metadata,
                None => count_metadata(extensions.len()),
            },
        ),
{
    reveal_strlit("extensions");
    reveal_strlit("resultMetadata");
    assert("extensions"@.len() == 10);
    assert("resultMetadata"@.len() == 14);
}

} // verus!
