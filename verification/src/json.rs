//! JSON documents: the tree the crate works on, its mathematical view, and the boundary to
//! `serde_json`, which alone turns bytes into values and values into bytes.

use vstd::prelude::*;

use vstd::hash_set::StringHashSet;

use crate::text::same_text;

verus! {

/// `serde_json::Number`: carried through documents, read only by [`number_as_u64`].
#[verifier::external_type_specification]
#[verifier::external_body]
pub struct ExNumber(serde_json::Number);

/// `serde_json::Value`: taken apart by [`open_value`] and put together by [`close_value`].
#[verifier::external_type_specification]
#[verifier::external_body]
pub struct ExValue(serde_json::Value);

/// A JSON value as mathematics. An object is a map from its keys: its members have no order.
#[verifier::ext_equal]
pub enum JsonValue {
    Null,
    Bool(bool),
    Number(serde_json::Number),
    Text(Seq<char>),
    List(Seq<JsonValue>),
    Object(Map<Seq<char>, JsonValue>),
}

/// A JSON value. Where an object names a key twice, the first member is the one that counts.
#[derive(Debug)]
pub enum Json {
    Null,
    Bool(bool),
    Number(serde_json::Number),
    Text(String),
    List(Vec<Json>),
    Object(Vec<Member>),
}

/// One member of an object.
#[derive(Debug)]
pub struct Member {
    pub key: String,
    pub value: Json,
}

/// The unsigned integer that a number holds, if it holds one.
pub uninterp spec fn number_unsigned(number: serde_json::Number) -> Option<u64>;

/// The number that holds the unsigned integer `n`.
pub uninterp spec fn unsigned_number(n: u64) -> serde_json::Number;

/// The number that holds the integer `n`.
pub uninterp spec fn signed_number(n: i64) -> serde_json::Number;

/// The document that a `serde_json` value holds.
pub uninterp spec fn value_content(value: serde_json::Value) -> JsonValue;

/// The document that `bytes` spell, if they spell one.
pub uninterp spec fn parsed_json(bytes: Seq<u8>) -> Option<JsonValue>;

/// The bytes that spell `value`.
pub uninterp spec fn written_json(value: JsonValue) -> Seq<u8>;

impl JsonValue {
    /// The member `key`, where this is an object that has it.
    pub open spec fn get(self, key: Seq<char>) -> Option<JsonValue> {
        match self {
            JsonValue::Object(members) => if members.contains_key(key) {
                Some(members[key])
            } else {
                None
            },
            _ => None,
        }
    }

    /// The text, where this is one.
    pub open spec fn as_text(self) -> Option<Seq<char>> {
        match self {
            JsonValue::Text(text) => Some(text),
            _ => None,
        }
    }

    /// The items, where this is a list.
    pub open spec fn as_list(self) -> Option<Seq<JsonValue>> {
        match self {
            JsonValue::List(items) => Some(items),
            _ => None,
        }
    }

    /// The unsigned integer, where this is a number that holds one.
    pub open spec fn as_u64(self) -> Option<u64> {
        match self {
            JsonValue::Number(number) => number_unsigned(number),
            _ => None,
        }
    }

    /// The text of the member `key`, where there is one and it is text.
    pub open spec fn text_at(self, key: Seq<char>) -> Option<Seq<char>> {
        match self.get(key) {
            Some(value) => value.as_text(),
            None => None,
        }
    }

    /// The items of the member `key`, where there is one and it is a list.
    pub open spec fn list_at(self, key: Seq<char>) -> Option<Seq<JsonValue>> {
        match self.get(key) {
            Some(value) => value.as_list(),
            None => None,
        }
    }

    /// What the token `0` of a JSON pointer leads to: the first item of a list, or the member
    /// `0` of an object.
    pub open spec fn first(self) -> Option<JsonValue> {
        match self {
            JsonValue::List(items) => if items.len() > 0 {
                Some(items[0])
            } else {
                None
            },
            _ => self.get("0"@),
        }
    }

    /// This object with the member `key` set to `value`.
    pub open spec fn with(self, key: Seq<char>, value: JsonValue) -> JsonValue {
        match self {
            JsonValue::Object(members) => JsonValue::Object(members.insert(key, value)),
            _ => self,
        }
    }
}

/// The object without members.
pub open spec fn empty_object() -> JsonValue {
    JsonValue::Object(Map::empty())
}

/// The number `n`.
pub open spec fn number(n: u64) -> JsonValue {
    JsonValue::Number(unsigned_number(n))
}

/// The views of a list of documents.
pub open spec fn json_views(items: Seq<Json>) -> Seq<JsonValue> {
    items.map_values(|item: Json| item@)
}

/// The view of an optional document.
pub open spec fn json_view_opt(json: Option<Json>) -> Option<JsonValue> {
    match json {
        Some(json) => Some(json@),
        None => None,
    }
}

/// Whether the member at `at` is the first that has `key`.
pub open spec fn first_at(members: Seq<Member>, key: Seq<char>, at: int) -> bool {
    &&& 0 <= at < members.len()
    &&& members[at].key@ == key
    &&& forall|before: int| 0 <= before < at ==> (#[trigger] members[before]).key@ != key
}

/// Whether some member has `key`.
pub open spec fn holds_key(members: Seq<Member>, key: Seq<char>) -> bool {
    exists|at: int| #[trigger] first_at(members, key, at)
}

/// Where the first member that has `key` stands.
pub open spec fn place_of(members: Seq<Member>, key: Seq<char>) -> int {
    choose|at: int| #[trigger] first_at(members, key, at)
}

impl View for Json {
    type V = JsonValue;

    open spec fn view(&self) -> JsonValue
        decreases self,
    {
        match *self {
            Json::Null => JsonValue::Null,
            Json::Bool(b) => JsonValue::Bool(b),
            Json::Number(n) => JsonValue::Number(n),
            Json::Text(text) => JsonValue::Text(text@),
            Json::List(items) => JsonValue::List(
                Seq::new(
                    items@.len(),
                    |i: int|
                        if 0 <= i < items@.len() {
                            items@[i].view()
                        } else {
                            JsonValue::Null
                        },
                ),
            ),
            Json::Object(members) => JsonValue::Object(
                Map::new(
                    |key: Seq<char>| holds_key(members@, key),
                    |key: Seq<char>|
                        {
                            let at = place_of(members@, key);
                            if 0 <= at < members@.len() {
                                members@[at].value.view()
                            } else {
                                JsonValue::Null
                            }
                        },
                ),
            ),
        }
    }
}

/// The view of a list is the list of the views.
pub proof fn lemma_list_view(items: Vec<Json>)
    ensures
        Json::List(items)@ == JsonValue::List(json_views(items@)),
{
    assert(Json::List(items)@->List_0 =~= json_views(items@));
}

/// The map that the members of an object stand for.
pub open spec fn members_map(members: Seq<Member>) -> Map<Seq<char>, JsonValue> {
    Map::new(
        |key: Seq<char>| holds_key(members, key),
        |key: Seq<char>| members[place_of(members, key)].value@,
    )
}

/// The view of an object is the map that its members stand for.
proof fn lemma_object_view(members: Vec<Member>)
    ensures
        Json::Object(members)@ == JsonValue::Object(members_map(members@)),
{
    assert(Json::Object(members)@->Object_0 =~= members_map(members@));
}

/// Changing the value of the first member that has a key sets that key.
proof fn lemma_members_update(members: Seq<Member>, at: int, member: Member)
    requires
        first_at(members, member.key@, at),
    ensures
        members_map(members.update(at, member)) == members_map(members).insert(
            member.key@,
            member.value@,
        ),
{
    let updated = members.update(at, member);
    assert forall|key: Seq<char>, i: int| first_at(members, key, i) <==> #[trigger] first_at(
        updated,
        key,
        i,
    ) by {
        if first_at(members, key, i) {
            assert forall|before: int| 0 <= before < i implies (#[trigger] updated[before]).key@
                != key by {
                assert(members[before].key@ != key);
            }
        }
        if first_at(updated, key, i) {
            assert forall|before: int| 0 <= before < i implies (#[trigger] members[before]).key@
                != key by {
                assert(updated[before].key@ != key);
            }
        }
    }
    assert forall|key: Seq<char>| holds_key(members, key) <==> #[trigger] holds_key(updated, key) by {
        if holds_key(members, key) {
            assert(first_at(updated, key, place_of(members, key)));
        }
    }
    assert(first_at(updated, member.key@, at));
    assert forall|key: Seq<char>| #[trigger]
        holds_key(updated, key) implies updated[place_of(updated, key)].value@ == (if key
        == member.key@ {
        member.value@
    } else {
        members[place_of(members, key)].value@
    }) by {
        let i = place_of(updated, key);
        let j = place_of(members, key);
        assert(first_at(updated, key, i));
        assert(first_at(updated, key, j));
        assert(i == j);
        if key == member.key@ {
            assert(i == at);
        }
    }
    assert(members_map(updated) =~= members_map(members).insert(member.key@, member.value@));
}

/// A member with a new key, put at the end, sets that key.
proof fn lemma_members_push(members: Seq<Member>, member: Member)
    requires
        forall|i: int| 0 <= i < members.len() ==> (#[trigger] members[i]).key@ != member.key@,
    ensures
        members_map(members.push(member)) == members_map(members).insert(
            member.key@,
            member.value@,
        ),
{
    let pushed = members.push(member);
    assert(first_at(pushed, member.key@, members.len() as int));
    assert forall|key: Seq<char>, i: int| key != member.key@ implies (first_at(members, key, i)
        <==> #[trigger] first_at(pushed, key, i)) by {
        if first_at(members, key, i) {
            assert forall|before: int| 0 <= before < i implies (#[trigger] pushed[before]).key@
                != key by {
                assert(members[before].key@ != key);
            }
        }
        if first_at(pushed, key, i) {
            assert forall|before: int| 0 <= before < i implies (#[trigger] members[before]).key@
                != key by {
                assert(pushed[before].key@ != key);
            }
        }
    }
    assert forall|key: Seq<char>| #[trigger]
        holds_key(pushed, key) implies pushed[place_of(pushed, key)].value@ == (if key
        == member.key@ {
        member.value@
    } else {
        members[place_of(members, key)].value@
    }) && (key == member.key@ || holds_key(members, key)) by {
        let i = place_of(pushed, key);
        assert(first_at(pushed, key, i));
        if key == member.key@ {
            assert(i == members.len());
        } else {
            assert(first_at(members, key, i));
            let j = place_of(members, key);
            assert(first_at(members, key, j));
            assert(i == j);
        }
    }
    assert forall|key: Seq<char>| #[trigger]
        holds_key(members, key) implies holds_key(pushed, key) by {
        let j = place_of(members, key);
        assert(first_at(members, key, j));
        assert(first_at(pushed, key, j));
    }
    assert(members_map(pushed) =~= members_map(members).insert(member.key@, member.value@));
}

/// Where the first member that has `key` stands, if one has it.
fn find_member(members: &Vec<Member>, key: &str) -> (found: Option<usize>)
    ensures
        match found {
            Some(at) => first_at(members@, key@, at as int),
            None => forall|i: int|
                0 <= i < members@.len() ==> (#[trigger] members@[i]).key@ != key@,
        },
{
    let mut i: usize = 0;
    while i < members.len()
        invariant
            i <= members@.len(),
            forall|j: int| 0 <= j < i ==> (#[trigger] members@[j]).key@ != key@,
        decreases members@.len() - i,
    {
        if same_text(members[i].key.as_str(), key) {
            return Some(i);
        }
        i += 1;
    }
    None
}

impl Json {
    /// The member `key`, where this is an object that has it.
    pub fn get(&self, key: &str) -> (found: Option<&Json>)
        ensures
            match found {
                Some(value) => self@.get(key@) == Some(value@),
                None => self@.get(key@) is None,
            },
    {
        match self {
            Json::Object(members) => {
                proof {
                    lemma_object_view(*members);
                }
                match find_member(members, key) {
                    Some(at) => {
                        assert(holds_key(members@, key@));
                        assert(first_at(members@, key@, place_of(members@, key@)));
                        assert(place_of(members@, key@) == at);
                        Some(&members[at].value)
                    },
                    None => None,
                }
            },
            _ => None,
        }
    }

    /// Sets the member `key` of an object.
    pub fn insert(&mut self, key: &str, value: Json)
        requires
            old(self)@ is Object,
        ensures
            final(self)@ == old(self)@.with(key@, value@),
    {
        if let Json::Object(members) = self {
            let ghost before = *members;
            let member = Member { key: key.to_string(), value };
            match find_member(members, key) {
                Some(at) => {
                    members[at] = member;
                    proof {
                        lemma_members_update(before@, at as int, member);
                        lemma_object_view(before);
                        lemma_object_view(*members);
                    }
                },
                None => {
                    members.push(member);
                    proof {
                        lemma_members_push(before@, member);
                        lemma_object_view(before);
                        lemma_object_view(*members);
                    }
                },
            }
        }
    }

    /// The text, where this is one.
    pub fn as_str(&self) -> (text: Option<&str>)
        ensures
            match text {
                Some(text) => self@.as_text() == Some(text@),
                None => self@.as_text() is None,
            },
    {
        match self {
            Json::Text(text) => Some(text.as_str()),
            _ => None,
        }
    }

    /// The items, where this is a list.
    pub fn as_list(&self) -> (items: Option<&Vec<Json>>)
        ensures
            match items {
                Some(items) => self@.as_list() == Some(json_views(items@)),
                None => self@.as_list() is None,
            },
    {
        match self {
            Json::List(items) => {
                proof {
                    lemma_list_view(*items);
                }
                Some(items)
            },
            _ => None,
        }
    }

    /// The unsigned integer, where this is a number that holds one.
    pub fn as_u64(&self) -> (number: Option<u64>)
        ensures
            number == self@.as_u64(),
    {
        match self {
            Json::Number(number) => number_as_u64(number),
            _ => None,
        }
    }

    /// The text of the member `key`, where there is one and it is text.
    pub fn get_str(&self, key: &str) -> (text: Option<&str>)
        ensures
            match text {
                Some(text) => self@.text_at(key@) == Some(text@),
                None => self@.text_at(key@) is None,
            },
    {
        match self.get(key) {
            Some(value) => value.as_str(),
            None => None,
        }
    }

    /// The items of the member `key`, where there is one and it is a list.
    pub fn get_list(&self, key: &str) -> (items: Option<&Vec<Json>>)
        ensures
            match items {
                Some(items) => self@.list_at(key@) == Some(json_views(items@)),
                None => self@.list_at(key@) is None,
            },
    {
        match self.get(key) {
            Some(value) => value.as_list(),
            None => None,
        }
    }

    /// What the token `0` of a JSON pointer leads to.
    pub fn first(&self) -> (found: Option<&Json>)
        ensures
            match found {
                Some(value) => self@.first() == Some(value@),
                None => self@.first() is None,
            },
    {
        match self {
            Json::List(items) => {
                proof {
                    lemma_list_view(*items);
                }
                if items.len() > 0 {
                    Some(&items[0])
                } else {
                    None
                }
            },
            _ => self.get("0"),
        }
    }

    /// The object without members.
    pub fn object() -> (object: Json)
        ensures
            object@ == empty_object(),
    {
        let members: Vec<Member> = Vec::new();
        proof {
            lemma_object_view(members);
            assert(members_map(members@) =~= Map::<Seq<char>, JsonValue>::empty());
        }
        Json::Object(members)
    }

    /// The text `text`.
    pub fn text(text: &str) -> (json: Json)
        ensures
            json@ == JsonValue::Text(text@),
    {
        Json::Text(text.to_string())
    }

    /// The number `n`.
    pub fn unsigned(n: u64) -> (json: Json)
        ensures
            json@ == number(n),
            json@.as_u64() == Some(n),
    {
        Json::Number(number_from_u64(n))
    }

    /// The number `n`.
    pub fn signed(n: i64) -> (json: Json)
        ensures
            json@ == JsonValue::Number(signed_number(n)),
            n >= 0 ==> json@.as_u64() == Some(n as u64),
            n < 0 ==> json@.as_u64() is None,
    {
        Json::Number(number_from_i64(n))
    }

    /// The list of `items`.
    pub fn list(items: Vec<Json>) -> (json: Json)
        ensures
            json@ == JsonValue::List(json_views(items@)),
    {
        proof {
            lemma_list_view(items);
        }
        Json::List(items)
    }

    /// The value of the member `key` of an object, which becomes null.
    fn take(&mut self, key: &str) -> (taken: Option<Json>)
        ensures
            json_view_opt(taken) == old(self)@.get(key@),
            match taken {
                Some(_) => final(self)@ == old(self)@.with(key@, JsonValue::Null),
                None => *final(self) == *old(self),
            },
    {
        if let Json::Object(members) = self {
            let ghost before = *members;
            proof {
                lemma_object_view(before);
            }
            if let Some(at) = find_member(members, key) {
                let mut slot = Json::Null;
                core::mem::swap(&mut members[at].value, &mut slot);
                proof {
                    assert(first_at(before@, key@, place_of(before@, key@)));
                    lemma_members_update(before@, at as int, members@[at as int]);
                    assert(members@ =~= before@.update(at as int, members@[at as int]));
                    lemma_object_view(*members);
                }
                return Some(slot);
            }
        }
        None
    }

    /// The items of the list at `key`, where there is one. What is left at `key` is then null,
    /// for the caller to set again.
    pub fn take_list(&mut self, key: &str) -> (items: Option<Vec<Json>>)
        ensures
            match items {
                Some(items) => {
                    &&& old(self)@.list_at(key@) == Some(json_views(items@))
                    &&& final(self)@ == old(self)@.with(key@, JsonValue::Null)
                },
                None => old(self)@.list_at(key@) is None && *final(self) == *old(self),
            },
    {
        if self.get_list(key).is_none() {
            return None;
        }
        match self.take(key) {
            Some(Json::List(items)) => {
                proof {
                    lemma_list_view(items);
                }
                Some(items)
            },
            _ => None,
        }
    }

    /// A document with the same content.
    pub fn duplicate(&self) -> (copy: Json)
        ensures
            copy@ == self@,
        decreases self,
    {
        match self {
            Json::Null => Json::Null,
            Json::Bool(b) => Json::Bool(*b),
            Json::Number(number) => Json::Number(duplicate_number(number)),
            Json::Text(text) => Json::Text(text.as_str().to_string()),
            Json::List(items) => {
                let mut copies: Vec<Json> = Vec::new();
                let mut i: usize = 0;
                while i < items.len()
                    invariant
                        i <= items@.len(),
                        self == Json::List(*items),
                        json_views(copies@) == json_views(items@.take(i as int)),
                    decreases items@.len() - i,
                {
                    proof {
                        assert(decreases_to!(self => self->List_0));
                        assert(decreases_to!(self->List_0 => self->List_0@[i as int]));
                    }
                    let copy = items[i].duplicate();
                    copies.push(copy);
                    i += 1;
                    assert(json_views(items@.take(i as int)) =~= json_views(
                        items@.take(i - 1),
                    ).push(copy@));
                    assert(json_views(copies@) =~= json_views(items@.take(i - 1)).push(copy@));
                }
                proof {
                    assert(items@.take(i as int) =~= items@);
                    lemma_list_view(*items);
                    lemma_list_view(copies);
                }
                Json::List(copies)
            },
            Json::Object(members) => {
                let mut copies: Vec<Member> = Vec::new();
                let mut i: usize = 0;
                while i < members.len()
                    invariant
                        i <= members@.len(),
                        self == Json::Object(*members),
                        same_members(copies@, members@.take(i as int)),
                    decreases members@.len() - i,
                {
                    proof {
                        assert(decreases_to!(self => self->Object_0));
                        assert(decreases_to!(self->Object_0 => self->Object_0@[i as int]));
                        assert(decreases_to!(members@[i as int] => members@[i as int].value));
                    }
                    copies.push(
                        Member {
                            key: members[i].key.as_str().to_string(),
                            value: members[i].value.duplicate(),
                        },
                    );
                    i += 1;
                }
                proof {
                    assert(members@.take(i as int) =~= members@);
                    lemma_same_members(copies@, members@);
                    lemma_object_view(*members);
                    lemma_object_view(copies);
                }
                Json::Object(copies)
            },
        }
    }
}

/// Whether two lists of members hold the same keys and values in the same order.
spec fn same_members(left: Seq<Member>, right: Seq<Member>) -> bool {
    &&& left.len() == right.len()
    &&& forall|i: int|
        0 <= i < left.len() ==> (#[trigger] left[i]).key@ == right[i].key@ && left[i].value@
            == right[i].value@
}

/// Lists with the same members stand for the same map.
proof fn lemma_same_members(left: Seq<Member>, right: Seq<Member>)
    requires
        same_members(left, right),
    ensures
        members_map(left) == members_map(right),
{
    assert forall|key: Seq<char>, i: int| #[trigger]
        first_at(left, key, i) <==> first_at(right, key, i) by {
        if first_at(left, key, i) {
            assert forall|before: int| 0 <= before < i implies (#[trigger] right[before]).key@
                != key by {
                assert(left[before].key@ != key);
            }
        }
        if first_at(right, key, i) {
            assert forall|before: int| 0 <= before < i implies (#[trigger] left[before]).key@
                != key by {
                assert(right[before].key@ != key);
            }
        }
    }
    assert forall|key: Seq<char>| #[trigger] holds_key(left, key) <==> holds_key(right, key) by {
        if holds_key(left, key) {
            assert(first_at(right, key, place_of(left, key)));
        }
        if holds_key(right, key) {
            assert(first_at(left, key, place_of(right, key)));
        }
    }
    assert forall|key: Seq<char>| #[trigger] holds_key(left, key) implies left[place_of(
        left,
        key,
    )].value@ == right[place_of(right, key)].value@ by {
        let i = place_of(left, key);
        let j = place_of(right, key);
        assert(first_at(left, key, i));
        assert(first_at(right, key, j));
        assert(first_at(left, key, j));
        assert(i == j);
    }
    assert(members_map(left) =~= members_map(right));
}

/// A member whose key is already there, put at the end, changes nothing.
proof fn lemma_members_push_known(members: Seq<Member>, member: Member)
    requires
        holds_key(members, member.key@),
    ensures
        members_map(members.push(member)) == members_map(members),
{
    let pushed = members.push(member);
    let known = place_of(members, member.key@);
    assert(first_at(members, member.key@, known));
    assert forall|key: Seq<char>, i: int| #[trigger]
        first_at(pushed, key, i) <==> first_at(members, key, i) by {
        if first_at(members, key, i) {
            assert forall|before: int| 0 <= before < i implies (#[trigger] pushed[before]).key@
                != key by {
                assert(members[before].key@ != key);
            }
        }
        if first_at(pushed, key, i) {
            assert forall|before: int| 0 <= before < i implies (#[trigger] members[before]).key@
                != key by {
                assert(pushed[before].key@ != key);
            }
            if i == members.len() {
                assert(pushed[known].key@ == key);
            }
        }
    }
    assert forall|key: Seq<char>| #[trigger] holds_key(pushed, key) <==> holds_key(members, key) by {
        if holds_key(members, key) {
            assert(first_at(pushed, key, place_of(members, key)));
        }
        if holds_key(pushed, key) {
            assert(first_at(members, key, place_of(pushed, key)));
        }
    }
    assert forall|key: Seq<char>| #[trigger] holds_key(pushed, key) implies pushed[place_of(
        pushed,
        key,
    )].value@ == members[place_of(members, key)].value@ by {
        let i = place_of(pushed, key);
        let j = place_of(members, key);
        assert(first_at(pushed, key, i));
        assert(first_at(members, key, i));
        assert(first_at(members, key, j));
        assert(i == j);
    }
    assert(members_map(pushed) =~= members_map(members));
}

/// `serde_json::Number::as_u64`: the integer a number holds, if it is not negative, has no
/// fraction and fits. Of the result it is claimed only that the number decides it.
#[verifier::external_body]
fn number_as_u64(number: &serde_json::Number) -> (held: Option<u64>)
    ensures
        held == number_unsigned(*number),
{
    number.as_u64()
}

/// `serde_json::Number::from` on an unsigned integer: a number that `as_u64` reads back as that
/// integer.
#[verifier::external_body]
fn number_from_u64(n: u64) -> (number: serde_json::Number)
    ensures
        number == unsigned_number(n),
        number_unsigned(number) == Some(n),
{
    serde_json::Number::from(n)
}

/// `serde_json::Number::from` on a signed integer: the number of the unsigned integer with the
/// same value where it is not negative, and one that `as_u64` does not read where it is.
#[verifier::external_body]
fn number_from_i64(n: i64) -> (number: serde_json::Number)
    ensures
        number == signed_number(n),
        n >= 0 ==> number == unsigned_number(n as u64) && number_unsigned(number) == Some(n as u64),
        n < 0 ==> number_unsigned(number) is None,
{
    serde_json::Number::from(n)
}

/// `serde_json::Number::clone`: the same number.
#[verifier::external_body]
fn duplicate_number(number: &serde_json::Number) -> (copy: serde_json::Number)
    ensures
        copy == *number,
{
    number.clone()
}

/// A `serde_json` value taken one level apart.
enum Node {
    Null,
    Bool(bool),
    Number(serde_json::Number),
    Text(String),
    List(Vec<serde_json::Value>),
    Object(Vec<(String, serde_json::Value)>),
}

/// The map that the entries of an object stand for.
spec fn entries_map(entries: Seq<(String, serde_json::Value)>) -> Map<Seq<char>, JsonValue>
    decreases entries.len(),
{
    if entries.len() == 0 {
        Map::empty()
    } else {
        entries_map(entries.drop_last()).insert(entries.last().0@, value_content(entries.last().1))
    }
}

/// Whether no two entries have the same key.
spec fn distinct_keys(entries: Seq<(String, serde_json::Value)>) -> bool {
    forall|i: int, j: int|
        0 <= i < j < entries.len() ==> (#[trigger] entries[i]).0@ != (#[trigger] entries[j]).0@
}

/// The document that a value taken apart stands for.
spec fn node_content(node: Node) -> JsonValue {
    match node {
        Node::Null => JsonValue::Null,
        Node::Bool(b) => JsonValue::Bool(b),
        Node::Number(number) => JsonValue::Number(number),
        Node::Text(text) => JsonValue::Text(text@),
        Node::List(items) => JsonValue::List(
            items@.map_values(|item: serde_json::Value| value_content(item)),
        ),
        Node::Object(entries) => JsonValue::Object(entries_map(entries@)),
    }
}

/// The variants of `serde_json::Value`, with what each holds moved out. The entries of an object
/// come out with each key once.
#[verifier::external_body]
fn open_value(value: serde_json::Value) -> (node: Node)
    ensures
        node_content(node) == value_content(value),
        match node {
            Node::Object(entries) => distinct_keys(entries@),
            _ => true,
        },
{
    match value {
        serde_json::Value::Null => Node::Null,
        serde_json::Value::Bool(b) => Node::Bool(b),
        serde_json::Value::Number(number) => Node::Number(number),
        serde_json::Value::String(text) => Node::Text(text),
        serde_json::Value::Array(items) => Node::List(items),
        serde_json::Value::Object(entries) => Node::Object(entries.into_iter().collect()),
    }
}

/// The variants of `serde_json::Value`, built from what each holds.
#[verifier::external_body]
fn close_value(node: Node) -> (value: serde_json::Value)
    requires
        match node {
            Node::Object(entries) => distinct_keys(entries@),
            _ => true,
        },
    ensures
        value_content(value) == node_content(node),
{
    match node {
        Node::Null => serde_json::Value::Null,
        Node::Bool(b) => serde_json::Value::Bool(b),
        Node::Number(number) => serde_json::Value::Number(number),
        Node::Text(text) => serde_json::Value::String(text),
        Node::List(items) => serde_json::Value::Array(items),
        Node::Object(entries) => serde_json::Value::Object(entries.into_iter().collect()),
    }
}

/// `serde_json::from_slice` into a `serde_json::Value`: which bytes are JSON, and what they
/// spell, is named and not stated.
#[verifier::external_body]
fn parse_value(bytes: &[u8]) -> (parsed: Option<serde_json::Value>)
    ensures
        match parsed {
            Some(value) => parsed_json(bytes@) == Some(value_content(value)),
            None => parsed_json(bytes@) is None,
        },
{
    serde_json::from_slice(bytes).ok()
}

/// The key by which `serde_json` hands raw values through its own data model: an object that has
/// it is not read back as an object.
pub open spec fn reserved_key() -> Seq<char> {
    "$serde_json::private::RawValue"@
}

/// Whether a document holds no number but unsigned integers and no reserved key, and nests at
/// most `depth` deep.
pub open spec fn plain(value: JsonValue, depth: nat) -> bool
    decreases depth,
{
    match value {
        JsonValue::Null | JsonValue::Bool(_) | JsonValue::Text(_) => true,
        JsonValue::Number(number) => number_unsigned(number) is Some,
        JsonValue::List(items) => depth > 0 && forall|i: int|
            0 <= i < items.len() ==> plain(#[trigger] items[i], (depth - 1) as nat),
        JsonValue::Object(members) => depth > 0 && !members.contains_key(reserved_key())
            && forall|key: Seq<char>| #[trigger]
            members.contains_key(key) ==> plain(members[key], (depth - 1) as nat),
    }
}

/// A plain object stays plain when a plain member is set under a key that is not reserved.
pub proof fn lemma_plain_with(object: JsonValue, key: Seq<char>, value: JsonValue, depth: nat)
    requires
        object is Object,
        plain(object, depth),
        plain(value, (depth - 1) as nat),
        key != reserved_key(),
    ensures
        plain(object.with(key, value), depth),
{
    let members = object->Object_0;
    let after = members.insert(key, value);
    assert forall|k: Seq<char>| #[trigger] after.contains_key(k) implies plain(
        after[k],
        (depth - 1) as nat,
    ) by {
        if k != key {
            assert(members.contains_key(k));
        }
    }
}

/// The object without members is plain.
pub proof fn lemma_plain_empty(depth: nat)
    requires
        depth > 0,
    ensures
        plain(empty_object(), depth),
{
}

/// `serde_json::to_vec` of a `serde_json::Value`, which does not fail: its maps have text keys
/// only. What is written is named and not stated, but for this: `serde_json::from_slice` reads
/// back a document whose numbers are unsigned integers, which has no reserved key and which stays
/// within the parser's nesting limit.
#[verifier::external_body]
fn write_value(value: &serde_json::Value) -> (bytes: Vec<u8>)
    ensures
        bytes@ == written_json(value_content(*value)),
        plain(value_content(*value), 127) ==> parsed_json(bytes@) == Some(value_content(*value)),
{
    serde_json::to_vec(value).expect("a JSON value has text keys only")
}

/// With distinct keys, every entry counts.
proof fn lemma_entries_hold(entries: Seq<(String, serde_json::Value)>, i: int)
    requires
        distinct_keys(entries),
        0 <= i < entries.len(),
    ensures
        entries_map(entries).contains_key(entries[i].0@),
        entries_map(entries)[entries[i].0@] == value_content(entries[i].1),
    decreases entries.len(),
{
    let front = entries.drop_last();
    if i < front.len() {
        assert forall|a: int, b: int| 0 <= a < b < front.len() implies (#[trigger] front[a]).0@ != (
        #[trigger] front[b]).0@ by {
            assert(entries[a].0@ != entries[b].0@);
        }
        lemma_entries_hold(front, i);
        assert(front[i] == entries[i]);
        assert(entries[i].0@ != entries[entries.len() - 1].0@);
    }
}

/// The entries of an object are finitely many.
proof fn lemma_entries_finite(entries: Seq<(String, serde_json::Value)>)
    ensures
        entries_map(entries).dom().finite(),
    decreases entries.len(),
{
    if entries.len() > 0 {
        lemma_entries_finite(entries.drop_last());
    }
}

impl Json {
    /// The document that a `serde_json` value holds.
    pub fn from_value(value: serde_json::Value) -> (json: Json)
        ensures
            json@ == value_content(value),
        decreases value_content(value),
    {
        let ghost content = value_content(value);
        let node = open_value(value);
        match node {
            Node::Null => Json::Null,
            Node::Bool(b) => Json::Bool(b),
            Node::Number(number) => Json::Number(number),
            Node::Text(text) => Json::Text(text),
            Node::List(values) => {
                let ghost contents = values@.map_values(
                    |item: serde_json::Value| value_content(item),
                );
                let mut items: Vec<Json> = Vec::new();
                for item in it: values
                    invariant
                        it.seq() == values@,
                        content == value_content(value),
                        content == JsonValue::List(contents),
                        contents == values@.map_values(
                            |item: serde_json::Value| value_content(item),
                        ),
                        json_views(items@) == contents.take(it.index() as int),
                {
                    assert(value_content(item) == contents[it.index() as int]);
                    assert(decreases_to!(content => content->List_0));
                    assert(decreases_to!(content->List_0 => content->List_0[it.index() as int]));
                    let json = Json::from_value(item);
                    items.push(json);
                    assert(json_views(items@) =~= contents.take(it.index() as int).push(json@));
                }
                assert(json_views(items@) =~= contents);
                Json::list(items)
            },
            Node::Object(entries) => {
                let mut members: Vec<Member> = Vec::new();
                proof {
                    assert(members_map(members@) =~= Map::<Seq<char>, JsonValue>::empty());
                    lemma_entries_finite(entries@);
                }
                for entry in it: entries
                    invariant
                        it.seq() == entries@,
                        content == value_content(value),
                        content == JsonValue::Object(entries_map(entries@)),
                        entries_map(entries@).dom().finite(),
                        distinct_keys(entries@),
                        members@.len() == it.index(),
                        forall|i: int|
                            0 <= i < it.index() ==> (#[trigger] members@[i]).key@
                                == entries@[i].0@,
                        members_map(members@) == entries_map(entries@.take(it.index() as int)),
                {
                    let ghost at = it.index() as int;
                    let ghost before = members@;
                    proof {
                        lemma_entries_hold(entries@, at);
                        assert(entries@[at] == entry);
                        assert(decreases_to!(content => content->Object_0));
                        assert(decreases_to!(content->Object_0 => content->Object_0[entry.0@]));
                    }
                    let (key, inner) = entry;
                    let member = Member { key, value: Json::from_value(inner) };
                    members.push(member);
                    proof {
                        assert forall|i: int| 0 <= i < before.len() implies (#[trigger]
                        before[i]).key@ != member.key@ by {
                            assert(entries@[i].0@ != entries@[at].0@);
                        }
                        lemma_members_push(before, member);
                        assert(entries@.take(at + 1).drop_last() =~= entries@.take(at));
                    }
                }
                proof {
                    assert(entries@.take(entries@.len() as int) =~= entries@);
                    lemma_object_view(members);
                }
                Json::Object(members)
            },
        }
    }

    /// The `serde_json` value that holds this document.
    fn into_value(self) -> (value: serde_json::Value)
        ensures
            value_content(value) == self@,
        decreases self,
    {
        let ghost whole = self;
        match self {
            Json::Null => close_value(Node::Null),
            Json::Bool(b) => close_value(Node::Bool(b)),
            Json::Number(number) => close_value(Node::Number(number)),
            Json::Text(text) => close_value(Node::Text(text)),
            Json::List(items) => {
                proof {
                    lemma_list_view(items);
                }
                let mut values: Vec<serde_json::Value> = Vec::new();
                for item in it: items
                    invariant
                        it.seq() == items@,
                        whole == self,
                        whole == Json::List(items),
                        values@.map_values(|v: serde_json::Value| value_content(v)) == json_views(
                            items@,
                        ).take(it.index() as int),
                {
                    assert(decreases_to!(whole => whole->List_0));
                    assert(decreases_to!(whole->List_0 => whole->List_0@[it.index() as int]));
                    let value = item.into_value();
                    values.push(value);
                    assert(values@.map_values(|v: serde_json::Value| value_content(v))
                        =~= json_views(items@).take(it.index() as int).push(value_content(value)));
                }
                assert(json_views(items@).take(items@.len() as int) =~= json_views(items@));
                close_value(Node::List(values))
            },
            Json::Object(members) => {
                proof {
                    lemma_object_view(members);
                }
                let mut seen = StringHashSet::new();
                let mut entries: Vec<(String, serde_json::Value)> = Vec::new();
                proof {
                    assert(members_map(members@.take(0)) =~= Map::<Seq<char>, JsonValue>::empty());
                }
                for member in it: members
                    invariant
                        it.seq() == members@,
                        whole == self,
                        whole == Json::Object(members),
                        distinct_keys(entries@),
                        forall|i: int|
                            0 <= i < entries@.len() ==> seen@.contains(
                                (#[trigger] entries@[i]).0@,
                            ),
                        forall|key: Seq<char>|
                            #![trigger seen@.contains(key)]
                            seen@.contains(key) <==> holds_key(
                                members@.take(it.index() as int),
                                key,
                            ),
                        entries_map(entries@) == members_map(members@.take(it.index() as int)),
                {
                    let ghost at = it.index() as int;
                    let ghost before = members@.take(at);
                    proof {
                        assert(members@[at] == member);
                        assert(members@.take(at + 1) =~= before.push(member));
                        assert(decreases_to!(whole => whole->Object_0));
                        assert(decreases_to!(whole->Object_0 => whole->Object_0@[at]));
                        assert(decreases_to!(member => member.value));
                        lemma_held_after_push(before, member);
                    }
                    if !seen.contains(member.key.as_str()) {
                        let Member { key, value: inner } = member;
                        let ghost held = entries@;
                        seen.insert(key.as_str().to_string());
                        let value = inner.into_value();
                        entries.push((key, value));
                        proof {
                            lemma_absent(before, member.key@);
                            lemma_members_push(before, member);
                            assert(entries@.drop_last() =~= held);
                        }
                    } else {
                        proof {
                            lemma_members_push_known(before, member);
                        }
                    }
                }
                assert(members@.take(members@.len() as int) =~= members@);
                close_value(Node::Object(entries))
            },
        }
    }

    /// The document that `bytes` spell, if they spell one.
    pub fn parse(bytes: &[u8]) -> (parsed: Option<Json>)
        ensures
            json_view_opt(parsed) == parsed_json(bytes@),
    {
        match parse_value(bytes) {
            Some(value) => Some(Json::from_value(value)),
            None => None,
        }
    }

    /// The bytes that spell the document.
    pub fn encode(self) -> (bytes: Vec<u8>)
        ensures
            bytes@ == written_json(self@),
            plain(self@, 127) ==> parsed_json(bytes@) == Some(self@),
    {
        let value = self.into_value();
        write_value(&value)
    }
}

/// A key is held by none of the members where it is not held.
proof fn lemma_absent(members: Seq<Member>, key: Seq<char>)
    requires
        !holds_key(members, key),
    ensures
        forall|i: int| 0 <= i < members.len() ==> (#[trigger] members[i]).key@ != key,
    decreases members.len(),
{
    assert forall|i: int| 0 <= i < members.len() implies (#[trigger] members[i]).key@ != key by {
        lemma_held(members, i);
    }
}

/// The key of every member is held.
proof fn lemma_held(members: Seq<Member>, i: int)
    requires
        0 <= i < members.len(),
    ensures
        holds_key(members, members[i].key@),
    decreases i,
{
    if exists|before: int| 0 <= before < i && (#[trigger] members[before]).key@ == members[i].key@ {
        let before = choose|before: int|
            0 <= before < i && (#[trigger] members[before]).key@ == members[i].key@;
        lemma_held(members, before);
    } else {
        assert(first_at(members, members[i].key@, i));
    }
}

/// After a member is put at the end, its key is held and the others are held as before.
proof fn lemma_held_after_push(members: Seq<Member>, member: Member)
    ensures
        forall|key: Seq<char>| #[trigger]
            holds_key(members.push(member), key) <==> holds_key(members, key) || key == member.key@,
{
    let pushed = members.push(member);
    assert forall|key: Seq<char>| #[trigger]
        holds_key(pushed, key) <==> holds_key(members, key) || key == member.key@ by {
        if holds_key(members, key) {
            let at = place_of(members, key);
            assert(first_at(members, key, at));
            lemma_held(pushed, at);
        }
        if key == member.key@ {
            lemma_held(pushed, members.len() as int);
        }
        if holds_key(pushed, key) {
            let at = place_of(pushed, key);
            assert(first_at(pushed, key, at));
            if at < members.len() {
                lemma_held(members, at);
            }
        }
    }
}

} // verus!
