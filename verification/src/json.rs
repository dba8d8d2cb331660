//! JSON values.

use crate::text::chars::same_text;
use vstd::prelude::*;

verus! {

/// A JSON value.
pub enum Json {
    Null,
    Bool(bool),
    /// A whole number that is not negative.
    Unsigned(u64),
    /// A whole number below zero.
    Negative(i64),
    /// Any other number, as it is written.
    Real(String),
    Text(String),
    List(Vec<Json>),
    /// The members in their order; no key occurs twice.
    Object(Vec<(String, Json)>),
}

/// What a JSON value holds.
pub enum JsonValue {
    Null,
    Bool(bool),
    Number(int),
    Real(Seq<char>),
    Text(Seq<char>),
    List(Seq<JsonValue>),
    Object(Seq<(Seq<char>, JsonValue)>),
}

pub open spec fn json_view(json: Json) -> JsonValue
    decreases json,
{
    match json {
        Json::Null => JsonValue::Null,
        Json::Bool(value) => JsonValue::Bool(value),
        Json::Unsigned(value) => JsonValue::Number(value as int),
        Json::Negative(value) => JsonValue::Number(value as int),
        Json::Real(text) => JsonValue::Real(text@),
        Json::Text(text) => JsonValue::Text(text@),
        Json::List(items) => JsonValue::List(items_view(items@)),
        Json::Object(members) => JsonValue::Object(members_view(members@)),
    }
}

pub open spec fn items_view(items: Seq<Json>) -> Seq<JsonValue>
    decreases items,
{
    if items.len() == 0 {
        Seq::empty()
    } else {
        items_view(items.drop_last()).push(json_view(items.last()))
    }
}

pub open spec fn members_view(members: Seq<(String, Json)>) -> Seq<(Seq<char>, JsonValue)>
    decreases members,
{
    if members.len() == 0 {
        Seq::empty()
    } else {
        members_view(members.drop_last()).push((members.last().0@, json_view(members.last().1)))
    }
}

impl View for Json {
    type V = JsonValue;

    open spec fn view(&self) -> JsonValue {
        json_view(*self)
    }
}

/// What a list holds, item by item.
pub proof fn items_view_items(items: Seq<Json>)
    ensures
        items_view(items).len() == items.len(),
        forall|i: int|
            #![trigger items[i]]
            #![trigger items_view(items)[i]]
            0 <= i < items.len() ==> items_view(items)[i] == items[i]@,
    decreases items.len(),
{
    if items.len() > 0 {
        items_view_items(items.drop_last());
        assert forall|i: int| 0 <= i < items.len() implies items_view(items)[i] == (
        #[trigger] items[i])@ by {
            if i < items.len() - 1 {
                assert(items.drop_last()[i] == items[i]);
            }
        }
    }
}

/// What an object holds, member by member.
pub proof fn members_view_members(members: Seq<(String, Json)>)
    ensures
        members_view(members).len() == members.len(),
        forall|i: int|
            #![trigger members[i]]
            #![trigger members_view(members)[i]]
            0 <= i < members.len() ==> members_view(members)[i] == (members[i].0@, members[i].1@),
    decreases members.len(),
{
    if members.len() > 0 {
        members_view_members(members.drop_last());
        assert forall|i: int| 0 <= i < members.len() implies members_view(members)[i] == (
            (#[trigger] members[i]).0@,
            members[i].1@,
        ) by {
            if i < members.len() - 1 {
                assert(members.drop_last()[i] == members[i]);
            }
        }
    }
}

// ---------------------------------------------------------------------------------------------
// Reading a value

/// The value under a key, looked for among the members.
pub open spec fn member(members: Seq<(Seq<char>, JsonValue)>, key: Seq<char>) -> Option<JsonValue>
    decreases members.len(),
{
    if members.len() == 0 {
        None
    } else if members[0].0 == key {
        Some(members[0].1)
    } else {
        member(members.skip(1), key)
    }
}

/// The value under a key; a value that is no object has none.
pub open spec fn field(value: JsonValue, key: Seq<char>) -> Option<JsonValue> {
    match value {
        JsonValue::Object(members) => member(members, key),
        _ => None,
    }
}

/// The value under a key, and `null` where there is none.
pub open spec fn at(value: JsonValue, key: Seq<char>) -> JsonValue {
    match field(value, key) {
        Some(found) => found,
        None => JsonValue::Null,
    }
}

pub open spec fn as_text(value: JsonValue) -> Option<Seq<char>> {
    match value {
        JsonValue::Text(text) => Some(text),
        _ => None,
    }
}

pub open spec fn as_bool(value: JsonValue) -> Option<bool> {
    match value {
        JsonValue::Bool(value) => Some(value),
        _ => None,
    }
}

/// A whole number of 64 bits without a sign.
pub open spec fn as_unsigned(value: JsonValue) -> Option<u64> {
    match value {
        JsonValue::Number(n) => if 0 <= n <= u64::MAX {
            Some(n as u64)
        } else {
            None
        },
        _ => None,
    }
}

/// A whole number of 64 bits with a sign.
pub open spec fn as_signed(value: JsonValue) -> Option<i64> {
    match value {
        JsonValue::Number(n) => if i64::MIN <= n <= i64::MAX {
            Some(n as i64)
        } else {
            None
        },
        _ => None,
    }
}

pub open spec fn as_list(value: JsonValue) -> Option<Seq<JsonValue>> {
    match value {
        JsonValue::List(items) => Some(items),
        _ => None,
    }
}

/// The value under a key where that is a text.
pub open spec fn text_at(value: JsonValue, key: Seq<char>) -> Option<Seq<char>> {
    as_text(at(value, key))
}

/// A text, or what stands for one that is missing.
pub open spec fn text_or(text: Option<Seq<char>>, default: Seq<char>) -> Seq<char> {
    match text {
        Some(text) => text,
        None => default,
    }
}

/// A value that can stand for a record of `count` fields: an object, or a list that gives the
/// fields in their order and may leave out the last ones.
pub open spec fn is_record(value: JsonValue, count: int) -> bool {
    match value {
        JsonValue::Object(_) => true,
        JsonValue::List(items) => items.len() <= count,
        _ => false,
    }
}

/// The field of a record, by its key in an object and by its position in a list.
pub open spec fn slot(value: JsonValue, key: Seq<char>, index: int) -> Option<JsonValue> {
    match value {
        JsonValue::Object(members) => member(members, key),
        JsonValue::List(items) => if index < items.len() {
            Some(items[index])
        } else {
            None
        },
        _ => None,
    }
}

/// The member under a key.
pub fn find_member<'a>(members: &'a Vec<(String, Json)>, key: &str) -> (found: Option<&'a Json>)
    ensures
        match found {
            Some(found) => member(members_view(members@), key@) == Some(found@),
            None => member(members_view(members@), key@) is None,
        },
{
    proof {
        members_view_members(members@);
    }
    let ghost all = members_view(members@);
    let mut i: usize = 0;
    assert(all.skip(0) =~= all);
    while i < members.len()
        invariant
            i <= members@.len() == all.len(),
            all == members_view(members@),
            forall|k: int|
                0 <= k < all.len() ==> all[k] == ((#[trigger] members@[k]).0@, members@[k].1@),
            member(all, key@) == member(all.skip(i as int), key@),
        decreases members@.len() - i,
    {
        assert(all.skip(i as int)[0] == (members@[i as int].0@, members@[i as int].1@));
        if same_text(members[i].0.as_str(), key) {
            return Some(&members[i].1);
        }
        assert(all.skip(i as int).skip(1) =~= all.skip(i + 1));
        i += 1;
    }
    None
}

impl Json {
    /// The value under a key; a value that is no object has none.
    pub fn get(&self, key: &str) -> (found: Option<&Json>)
        ensures
            match found {
                Some(found) => field(self@, key@) == Some(found@),
                None => field(self@, key@) is None,
            },
    {
        match self {
            Json::Object(members) => find_member(members, key),
            _ => None,
        }
    }

    /// Whether the value can stand for a record of `count` fields.
    pub fn is_record(&self, count: usize) -> (yes: bool)
        ensures
            yes == is_record(self@, count as int),
    {
        match self {
            Json::Object(_) => true,
            Json::List(items) => {
                proof {
                    items_view_items(items@);
                }
                items.len() <= count
            },
            _ => false,
        }
    }

    /// The field of a record, by its key in an object and by its position in a list.
    pub fn slot(&self, key: &str, index: usize) -> (found: Option<&Json>)
        ensures
            match found {
                Some(found) => slot(self@, key@, index as int) == Some(found@),
                None => slot(self@, key@, index as int) is None,
            },
    {
        match self {
            Json::Object(members) => find_member(members, key),
            Json::List(items) => {
                proof {
                    items_view_items(items@);
                }
                if index < items.len() {
                    Some(&items[index])
                } else {
                    None
                }
            },
            _ => None,
        }
    }

    pub fn is_null(&self) -> (yes: bool)
        ensures
            yes == (self@ is Null),
    {
        match self {
            Json::Null => true,
            _ => false,
        }
    }

    pub fn as_text(&self) -> (text: Option<&str>)
        ensures
            match text {
                Some(text) => as_text(self@) == Some(text@),
                None => as_text(self@) is None,
            },
    {
        match self {
            Json::Text(text) => Some(text.as_str()),
            _ => None,
        }
    }

    pub fn as_bool(&self) -> (value: Option<bool>)
        ensures
            value == as_bool(self@),
    {
        match self {
            Json::Bool(value) => Some(*value),
            _ => None,
        }
    }

    pub fn as_unsigned(&self) -> (value: Option<u64>)
        ensures
            value == as_unsigned(self@),
    {
        match self {
            Json::Unsigned(value) => Some(*value),
            Json::Negative(value) => if *value >= 0 {
                Some(*value as u64)
            } else {
                None
            },
            _ => None,
        }
    }

    pub fn as_signed(&self) -> (value: Option<i64>)
        ensures
            value == as_signed(self@),
    {
        match self {
            Json::Unsigned(value) => if *value <= i64::MAX as u64 {
                Some(*value as i64)
            } else {
                None
            },
            Json::Negative(value) => Some(*value),
            _ => None,
        }
    }

    pub fn as_list(&self) -> (items: Option<&Vec<Json>>)
        ensures
            match items {
                Some(items) => as_list(self@) == Some(items_view(items@)),
                None => as_list(self@) is None,
            },
    {
        match self {
            Json::List(items) => Some(items),
            _ => None,
        }
    }

    /// The text under a key.
    pub fn text_at(&self, key: &str) -> (text: Option<&str>)
        ensures
            match text {
                Some(text) => text_at(self@, key@) == Some(text@),
                None => text_at(self@, key@) is None,
            },
    {
        match self.get(key) {
            Some(found) => found.as_text(),
            None => None,
        }
    }

    /// The text under a key, or what stands for one that is missing.
    pub fn text_at_or<'a>(&'a self, key: &str, default: &'a str) -> (text: &'a str)
        ensures
            text@ == text_or(text_at(self@, key@), default@),
    {
        match self.text_at(key) {
            Some(text) => text,
            None => default,
        }
    }

    /// The whole number under a key, or zero.
    pub fn number_at(&self, key: &str) -> (value: u64)
        ensures
            value == match as_unsigned(at(self@, key@)) {
                Some(n) => n,
                None => 0,
            },
    {
        match self.get(key) {
            Some(found) => match found.as_unsigned() {
                Some(value) => value,
                None => 0,
            },
            None => 0,
        }
    }

    /// The list under a key.
    pub fn list_at(&self, key: &str) -> (items: Option<&Vec<Json>>)
        ensures
            match items {
                Some(items) => as_list(at(self@, key@)) == Some(items_view(items@)),
                None => as_list(at(self@, key@)) is None,
            },
    {
        match self.get(key) {
            Some(found) => found.as_list(),
            None => None,
        }
    }

    /// The same value again.
    pub fn copy(&self) -> (copy: Json)
        ensures
            copy@ == self@,
        decreases self,
    {
        match self {
            Json::Null => Json::Null,
            Json::Bool(value) => Json::Bool(*value),
            Json::Unsigned(value) => Json::Unsigned(*value),
            Json::Negative(value) => Json::Negative(*value),
            Json::Real(text) => Json::Real(text.clone()),
            Json::Text(text) => Json::Text(text.clone()),
            Json::List(items) => {
                let mut copy: Vec<Json> = Vec::new();
                let mut i: usize = 0;
                while i < items.len()
                    invariant
                        i <= items@.len(),
                        copy@.len() == i,
                        self matches Json::List(own) && own == items,
                        forall|k: int| 0 <= k < i ==> (#[trigger] copy@[k])@ == items@[k]@,
                    decreases items@.len() - i,
                {
                    let one = items[i].copy();
                    copy.push(one);
                    i += 1;
                }
                proof {
                    items_view_items(items@);
                    items_view_items(copy@);
                    assert(items_view(copy@) =~= items_view(items@));
                }
                Json::List(copy)
            },
            Json::Object(members) => Json::Object(copy_members(members)),
        }
    }
}

/// The same members again.
pub fn copy_members(members: &Vec<(String, Json)>) -> (copy: Vec<(String, Json)>)
    ensures
        members_view(copy@) == members_view(members@),
    decreases members,
{
    let mut copy: Vec<(String, Json)> = Vec::new();
    let mut i: usize = 0;
    while i < members.len()
        invariant
            i <= members@.len(),
            copy@.len() == i,
            forall|k: int|
                0 <= k < i ==> (#[trigger] copy@[k]).0@ == members@[k].0@ && copy@[k].1@
                    == members@[k].1@,
        decreases members@.len() - i,
    {
        let member = &members[i];
        let value = member.1.copy();
        copy.push((member.0.clone(), value));
        i += 1;
    }
    proof {
        members_view_members(members@);
        members_view_members(copy@);
        assert(members_view(copy@) =~= members_view(members@));
    }
    copy
}

// ---------------------------------------------------------------------------------------------
// JSON text

/// A value of `serde_json`, passed from the parser to the conversion and not looked into.
#[verifier::external_type_specification]
#[verifier::external_body]
pub struct ExternalValue(serde_json::Value);

/// What a value of `serde_json` holds.
pub uninterp spec fn held_by(value: serde_json::Value) -> JsonValue;

/// What `serde_json::from_str` reads out of a text, where the text is JSON.
pub uninterp spec fn read_json(text: Seq<char>) -> Option<JsonValue>;

/// `serde_json::from_str::<Value>`: whether the text is JSON, and what it holds, depends on the
/// text alone.
#[verifier::external_body]
fn parse_value(text: &str) -> (out: Option<serde_json::Value>)
    ensures
        match out {
            Some(value) => read_json(text@) == Some(held_by(value)),
            None => read_json(text@) is None,
        },
{
    serde_json::from_str(text).ok()
}

/// The value of this library for a `serde_json::Value`, variant by variant.
#[verifier::external_body]
fn from_value(value: serde_json::Value) -> (json: Json)
    ensures
        json@ == held_by(value),
{
    match value {
        serde_json::Value::Null => Json::Null,
        serde_json::Value::Bool(value) => Json::Bool(value),
        serde_json::Value::Number(n) => match (n.as_u64(), n.as_i64()) {
            (Some(value), _) => Json::Unsigned(value),
            (None, Some(value)) => Json::Negative(value),
            (None, None) => Json::Real(n.to_string()),
        },
        serde_json::Value::String(text) => Json::Text(text),
        serde_json::Value::Array(items) => Json::List(items.into_iter().map(from_value).collect()),
        serde_json::Value::Object(members) => {
            Json::Object(members.into_iter().map(|(k, v)| (k, from_value(v))).collect())
        },
    }
}

impl Json {
    /// The value that a JSON text spells.
    pub fn parse(text: &str) -> (out: Option<Json>)
        ensures
            match out {
                Some(json) => read_json(text@) == Some(json@),
                None => read_json(text@) is None,
            },
    {
        match parse_value(text) {
            Some(value) => Some(from_value(value)),
            None => None,
        }
    }
}

// ---------------------------------------------------------------------------------------------
// Building values

pub fn text(value: &str) -> (json: Json)
    ensures
        json@ == JsonValue::Text(value@),
{
    Json::Text(value.to_owned())
}

pub open spec fn optional_text(value: Option<Seq<char>>) -> JsonValue {
    match value {
        Some(text) => JsonValue::Text(text),
        None => JsonValue::Null,
    }
}

/// A text, or `null` where it is missing.
pub fn text_or_null(value: &Option<String>) -> (json: Json)
    ensures
        json@ == optional_text(
            match *value {
                Some(text) => Some(text@),
                None => None,
            },
        ),
{
    match value {
        Some(text) => Json::Text(text.clone()),
        None => Json::Null,
    }
}

pub fn number(value: u64) -> (json: Json)
    ensures
        json@ == JsonValue::Number(value as int),
{
    Json::Unsigned(value)
}

pub open spec fn optional_number(value: Option<u32>) -> JsonValue {
    match value {
        Some(value) => JsonValue::Number(value as int),
        None => JsonValue::Null,
    }
}

/// A number, or `null` where it is missing.
pub fn number_or_null(value: Option<u32>) -> (json: Json)
    ensures
        json@ == optional_number(value),
{
    match value {
        Some(value) => Json::Unsigned(value as u64),
        None => Json::Null,
    }
}

pub fn signed(value: i64) -> (json: Json)
    ensures
        json@ == JsonValue::Number(value as int),
{
    if value >= 0 {
        Json::Unsigned(value as u64)
    } else {
        Json::Negative(value)
    }
}

/// An object that is built member by member.
pub fn with(object: Vec<(String, Json)>, key: &str, value: Json) -> (out: Vec<(String, Json)>)
    ensures
        members_view(out@) == members_view(object@).push((key@, value@)),
{
    let mut out = object;
    out.push((key.to_owned(), value));
    assert(out@.drop_last() =~= object@);
    out
}

pub fn no_members() -> (out: Vec<(String, Json)>)
    ensures
        members_view(out@) == Seq::<(Seq<char>, JsonValue)>::empty(),
{
    Vec::new()
}

/// A list of texts as a JSON list.
pub open spec fn text_list(list: Seq<Seq<char>>) -> JsonValue {
    JsonValue::List(list.map_values(|text: Seq<char>| JsonValue::Text(text)))
}

pub fn texts_json(list: &Vec<String>) -> (json: Json)
    ensures
        json@ == text_list(crate::text::chars::texts(list@)),
{
    let mut items: Vec<Json> = Vec::new();
    let mut i: usize = 0;
    while i < list.len()
        invariant
            i <= list@.len(),
            items@.len() == i,
            forall|k: int| 0 <= k < i ==> (#[trigger] items@[k])@ == JsonValue::Text(list@[k]@),
        decreases list@.len() - i,
    {
        items.push(Json::Text(list[i].clone()));
        i += 1;
    }
    proof {
        items_view_items(items@);
        assert(items_view(items@) =~= crate::text::chars::texts(list@).map_values(
            |text: Seq<char>| JsonValue::Text(text),
        ));
    }
    Json::List(items)
}

// ---------------------------------------------------------------------------------------------
// What holds of values

/// An object says this under a key.
pub open spec fn has_member(value: JsonValue, key: Seq<char>, found: JsonValue) -> bool {
    value matches JsonValue::Object(members) && members.contains((key, found))
}

/// What is there is written as what it is, and what is missing as `null`.
pub proof fn what_is_missing_is_null(text: Seq<char>, number: u32)
    ensures
        optional_text(Some(text)) == JsonValue::Text(text),
        optional_text(None) == JsonValue::Null,
        optional_number(Some(number)) == JsonValue::Number(number as int),
        optional_number(None) == JsonValue::Null,
{
}

/// A list of texts is written as these texts, in their order.
pub proof fn a_list_of_texts_is_these_texts(list: Seq<Seq<char>>)
    ensures
        match text_list(list) {
            JsonValue::List(items) => items.len() == list.len() && forall|i: int|
                0 <= i < list.len() ==> #[trigger] items[i] == JsonValue::Text(list[i]),
            _ => false,
        },
{
}

/// What is found under a key is what the first member with that key holds, and nothing is found
/// only where no member has it.
pub proof fn the_first_member_is_found(members: Seq<(Seq<char>, JsonValue)>, key: Seq<char>)
    ensures
        match member(members, key) {
            Some(found) => exists|i: int|
                0 <= i < members.len() && (#[trigger] members[i]) == (key, found) && forall|k: int|
                    0 <= k < i ==> (#[trigger] members[k]).0 != key,
            None => forall|i: int| 0 <= i < members.len() ==> (#[trigger] members[i]).0 != key,
        },
    decreases members.len(),
{
    if members.len() > 0 {
        let rest = members.skip(1);
        if members[0].0 == key {
            assert(members[0] == (key, members[0].1));
        } else {
            the_first_member_is_found(rest, key);
            match member(rest, key) {
                Some(found) => {
                    let i = choose|i: int|
                        0 <= i < rest.len() && (#[trigger] rest[i]) == (key, found) && forall|k: int|
                            0 <= k < i ==> (#[trigger] rest[k]).0 != key;
                    assert(members[i + 1] == (key, found));
                    assert forall|k: int| 0 <= k < i + 1 implies (#[trigger] members[k]).0 != key by {
                        if k > 0 {
                            assert(rest[k - 1] == members[k]);
                        }
                    }
                },
                None => {
                    assert forall|i: int| 0 <= i < members.len() implies (
                    #[trigger] members[i]).0 != key by {
                        if i > 0 {
                            assert(rest[i - 1] == members[i]);
                        }
                    }
                },
            }
        }
    }
}

/// A value is read as what it is, and as nothing else.
pub proof fn a_value_is_read_as_what_it_is(
    text: Seq<char>,
    flag: bool,
    n: int,
    items: Seq<JsonValue>,
    members: Seq<(Seq<char>, JsonValue)>,
    key: Seq<char>,
    index: int,
)
    ensures
        as_text(JsonValue::Text(text)) == Some(text),
        as_text(JsonValue::Null) is None,
        as_bool(JsonValue::Bool(flag)) == Some(flag),
        as_bool(JsonValue::Null) is None,
        as_unsigned(JsonValue::Number(n)) is Some <==> 0 <= n <= u64::MAX,
        as_unsigned(JsonValue::Number(n)) is Some ==> as_unsigned(JsonValue::Number(n)).unwrap()
            == n,
        as_signed(JsonValue::Number(n)) is Some <==> i64::MIN <= n <= i64::MAX,
        as_signed(JsonValue::Number(n)) is Some ==> as_signed(JsonValue::Number(n)).unwrap() == n,
        as_list(JsonValue::List(items)) == Some(items),
        as_list(JsonValue::Null) is None,
        at(JsonValue::Object(members), key) == match member(members, key) {
            Some(found) => found,
            None => JsonValue::Null,
        },
        slot(JsonValue::Object(members), key, index) == member(members, key),
        0 <= index < items.len() ==> slot(JsonValue::List(items), key, index) == Some(items[index]),
        index >= items.len() ==> slot(JsonValue::List(items), key, index) is None,
        text_or(Some(text), key) == text,
        text_or(None, key) == key,
{
}

} // verus!
