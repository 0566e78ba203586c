//! JSON documents as plain values.
//!
//! `serde_json` reads the bytes. What it read is taken over, level by level,
//! into [`Json`], which holds the values that the protocols look at.

use crate::identifier::hex_char;
use crate::order::keys_distinct;
use crate::text::same_text;
use vstd::prelude::*;

verus! {

/// A document value of `serde_json`, carried unopened.
#[verifier::external_type_specification]
#[verifier::external_body]
pub struct ExValue(serde_json::Value);

/// A number of a document: its value as an unsigned and as a signed 64-bit
/// integer, each where it has one. A fraction has neither.
#[derive(Clone, Copy, Debug, PartialEq, Eq, Structural)]
pub struct JsonNumber {
    pub unsigned: Option<u64>,
    pub signed: Option<i64>,
}

/// One value of a JSON document. The names in an object are distinct.
pub enum Json {
    Null,
    Bool(bool),
    Number(JsonNumber),
    Text(String),
    Array(Vec<Json>),
    Object(Vec<(String, Json)>),
}

/// What a [`Json`] value says.
pub enum JsonView {
    Null,
    Bool(bool),
    Number(JsonNumber),
    Text(Seq<char>),
    Array(Seq<JsonView>),
    Object(Seq<(Seq<char>, JsonView)>),
}

/// One level of a document whose inner values are still unopened.
pub enum JsonLevel {
    Null,
    Bool(bool),
    Number(JsonNumber),
    Text(String),
    Array(Vec<serde_json::Value>),
    Object(Vec<(String, serde_json::Value)>),
}

impl Json {
    /// The document value that this holds.
    pub open spec fn contents(self) -> JsonView
        decreases self,
    {
        match self {
            Json::Null => JsonView::Null,
            Json::Bool(value) => JsonView::Bool(value),
            Json::Number(value) => JsonView::Number(value),
            Json::Text(value) => JsonView::Text(value@),
            Json::Array(values) => JsonView::Array(
                Seq::new(
                    values@.len(),
                    |i: int|
                        if 0 <= i < values@.len() {
                            values@[i].contents()
                        } else {
                            JsonView::Null
                        },
                ),
            ),
            Json::Object(entries) => JsonView::Object(
                Seq::new(
                    entries@.len(),
                    |i: int|
                        if 0 <= i < entries@.len() {
                            (entries@[i].0@, entries@[i].1.contents())
                        } else {
                            (Seq::<char>::empty(), JsonView::Null)
                        },
                ),
            ),
        }
    }
}

/// The document that `serde_json::from_slice` reads from these bytes, or the
/// text of the error with which it refuses them.
pub uninterp spec fn json_document(raw: Seq<u8>) -> Result<JsonView, Seq<char>>;

/// What a document value of `serde_json` holds.
pub uninterp spec fn json_contents(value: serde_json::Value) -> JsonView;

/// A character as it stands in a JSON string: quotes and backslashes behind a
/// backslash, the five control characters with a short escape as that, the others
/// by their number, and everything else as it is.
pub open spec fn json_escape(c: char) -> Seq<char> {
    let code = c as nat;
    if c == '"' || c == '\\' {
        seq!['\\', c]
    } else if code == 8 {
        seq!['\\', 'b']
    } else if code == 9 {
        seq!['\\', 't']
    } else if code == 10 {
        seq!['\\', 'n']
    } else if code == 12 {
        seq!['\\', 'f']
    } else if code == 13 {
        seq!['\\', 'r']
    } else if code < 32 {
        seq!['\\', 'u', '0', '0', hex_char(code / 16), hex_char(code % 16)]
    } else {
        seq![c]
    }
}

/// The characters of a text as they stand in a JSON string.
pub open spec fn json_escaped(text: Seq<char>) -> Seq<char>
    decreases text.len(),
{
    if text.len() == 0 {
        Seq::empty()
    } else {
        json_escaped(text.drop_last()) + json_escape(text.last())
    }
}

/// A text as a JSON string.
pub open spec fn json_quoted(text: Seq<char>) -> Seq<char> {
    seq!['"'] + json_escaped(text) + seq!['"']
}

/// What one opened level says.
pub open spec fn level_contents(level: JsonLevel) -> JsonView {
    match level {
        JsonLevel::Null => JsonView::Null,
        JsonLevel::Bool(value) => JsonView::Bool(value),
        JsonLevel::Number(value) => JsonView::Number(value),
        JsonLevel::Text(value) => JsonView::Text(value@),
        JsonLevel::Array(values) => JsonView::Array(
            Seq::new(values@.len(), |i: int| json_contents(values@[i])),
        ),
        JsonLevel::Object(entries) => JsonView::Object(
            Seq::new(entries@.len(), |i: int| (entries@[i].0@, json_contents(entries@[i].1))),
        ),
    }
}

/// Reads bytes with `serde_json::from_slice`. The result is the named document,
/// or the text of the reader's error.
#[verifier::external_body]
pub(crate) fn read_value(raw: &[u8]) -> (result: Result<serde_json::Value, String>)
    ensures
        match result {
            Ok(value) => json_document(raw@) == Ok::<JsonView, Seq<char>>(json_contents(value)),
            Err(text) => json_document(raw@) == Err::<JsonView, Seq<char>>(text@),
        },
{
    serde_json::from_slice(raw).map_err(|error| error.to_string())
}

/// Opens one level of a `serde_json::Value`: the variant, a number by
/// `as_u64` and `as_i64`, the items of an array and the entries of an object
/// in their order. No two entries of an object have the same name.
#[verifier::external_body]
pub(crate) fn open_level(value: serde_json::Value) -> (level: JsonLevel)
    ensures
        level_contents(level) == json_contents(value),
        level is Object ==> keys_distinct(level_contents(level)->Object_0),
{
    match value {
        serde_json::Value::Null => JsonLevel::Null,
        serde_json::Value::Bool(value) => JsonLevel::Bool(value),
        serde_json::Value::Number(number) => {
            JsonLevel::Number(JsonNumber { unsigned: number.as_u64(), signed: number.as_i64() })
        },
        serde_json::Value::String(text) => JsonLevel::Text(text),
        serde_json::Value::Array(values) => JsonLevel::Array(values),
        serde_json::Value::Object(entries) => JsonLevel::Object(entries.into_iter().collect()),
    }
}

/// Writes a string with `serde_json::to_string`. The result is the string in
/// quotes, with the escapes that JSON asks for and no others.
#[verifier::external_body]
pub(crate) fn quote(text: &str) -> (quoted: String)
    ensures
        quoted@ == json_quoted(text@),
{
    serde_json::to_string(text).expect("a string always serializes")
}

/// Whether no object in a value has two entries of the same name.
pub open spec fn names_unique(value: JsonView) -> bool
    decreases value,
{
    match value {
        JsonView::Array(items) => forall|i: int|
            0 <= i < items.len() ==> names_unique(#[trigger] items[i]),
        JsonView::Object(entries) => keys_distinct(entries) && forall|i: int|
            0 <= i < entries.len() ==> names_unique(#[trigger] entries[i].1),
        _ => true,
    }
}

fn take_over_items(values: Vec<serde_json::Value>) -> (items: Vec<Json>)
    ensures
        items@.len() == values@.len(),
        forall|i: int|
            0 <= i < values@.len() ==> (#[trigger] items@[i]).contents() == json_contents(
                values@[i],
            ) && names_unique(items@[i].contents()),
    decreases Seq::new(values@.len(), |i: int| json_contents(values@[i])),
{
    let ghost views = Seq::new(values@.len(), |i: int| json_contents(values@[i]));
    let mut rest = values;
    let mut reversed: Vec<Json> = Vec::new();
    let ghost total = values@.len();
    while rest.len() > 0
        invariant
            rest@ == values@.take(rest@.len() as int),
            rest@.len() <= total,
            total == values@.len(),
            reversed@.len() == total - rest@.len(),
            views == Seq::new(values@.len(), |i: int| json_contents(values@[i])),
            forall|k: int|
                0 <= k < reversed@.len() ==> (#[trigger] reversed@[k]).contents() == json_contents(
                    values@[total - 1 - k],
                ) && names_unique(reversed@[k].contents()),
        decreases rest@.len(),
    {
        let ghost at = rest@.len() - 1;
        let value = rest.pop().unwrap();
        assert(views[at] == json_contents(value));
        let item = take_over(value);
        reversed.push(item);
    }
    let mut items: Vec<Json> = Vec::new();
    while reversed.len() > 0
        invariant
            items@.len() + reversed@.len() == total,
            total == values@.len(),
            forall|k: int|
                0 <= k < reversed@.len() ==> (#[trigger] reversed@[k]).contents() == json_contents(
                    values@[total - 1 - k],
                ) && names_unique(reversed@[k].contents()),
            forall|k: int|
                0 <= k < items@.len() ==> (#[trigger] items@[k]).contents() == json_contents(
                    values@[k],
                ) && names_unique(items@[k].contents()),
        decreases reversed@.len(),
    {
        let item = reversed.pop().unwrap();
        items.push(item);
    }
    items
}

fn take_over_entries(entries: Vec<(String, serde_json::Value)>) -> (items: Vec<(String, Json)>)
    ensures
        items@.len() == entries@.len(),
        forall|i: int|
            0 <= i < entries@.len() ==> (#[trigger] items@[i]).0@ == entries@[i].0@
                && items@[i].1.contents() == json_contents(entries@[i].1) && names_unique(
                items@[i].1.contents(),
            ),
    decreases
            Seq::new(entries@.len(), |i: int| (entries@[i].0@, json_contents(entries@[i].1))),
{
    let ghost views = Seq::new(
        entries@.len(),
        |i: int| (entries@[i].0@, json_contents(entries@[i].1)),
    );
    let mut rest = entries;
    let mut reversed: Vec<(String, Json)> = Vec::new();
    let ghost total = entries@.len();
    while rest.len() > 0
        invariant
            rest@ == entries@.take(rest@.len() as int),
            rest@.len() <= total,
            total == entries@.len(),
            reversed@.len() == total - rest@.len(),
            views == Seq::new(
                entries@.len(),
                |i: int| (entries@[i].0@, json_contents(entries@[i].1)),
            ),
            forall|k: int|
                0 <= k < reversed@.len() ==> (#[trigger] reversed@[k]).0@ == entries@[total - 1
                    - k].0@ && reversed@[k].1.contents() == json_contents(
                    entries@[total - 1 - k].1,
                ) && names_unique(reversed@[k].1.contents()),
        decreases rest@.len(),
    {
        let ghost at = rest@.len() - 1;
        let (name, value) = rest.pop().unwrap();
        assert(views[at].1 == json_contents(value));
        let item = take_over(value);
        reversed.push((name, item));
    }
    let mut items: Vec<(String, Json)> = Vec::new();
    while reversed.len() > 0
        invariant
            items@.len() + reversed@.len() == total,
            total == entries@.len(),
            forall|k: int|
                0 <= k < reversed@.len() ==> (#[trigger] reversed@[k]).0@ == entries@[total - 1
                    - k].0@ && reversed@[k].1.contents() == json_contents(
                    entries@[total - 1 - k].1,
                ) && names_unique(reversed@[k].1.contents()),
            forall|k: int|
                0 <= k < items@.len() ==> (#[trigger] items@[k]).0@ == entries@[k].0@
                    && items@[k].1.contents() == json_contents(entries@[k].1) && names_unique(
                    items@[k].1.contents(),
                ),
        decreases reversed@.len(),
    {
        let item = reversed.pop().unwrap();
        items.push(item);
    }
    items
}

fn take_over(value: serde_json::Value) -> (json: Json)
    ensures
        json.contents() == json_contents(value),
        names_unique(json.contents()),
    decreases json_contents(value),
{
    match open_level(value) {
        JsonLevel::Null => Json::Null,
        JsonLevel::Bool(value) => Json::Bool(value),
        JsonLevel::Number(value) => Json::Number(value),
        JsonLevel::Text(value) => Json::Text(value),
        JsonLevel::Array(values) => {
            proof {
                let inner = json_contents(value);
                assert(inner->Array_0 =~= Seq::new(
                    values@.len(),
                    |i: int| json_contents(values@[i]),
                ));
                assert(decreases_to!(inner => inner->Array_0));
            }
            let items = take_over_items(values);
            let json = Json::Array(items);
            assert(json.contents()->Array_0 =~= json_contents(value)->Array_0);
            json
        },
        JsonLevel::Object(entries) => {
            proof {
                let inner = json_contents(value);
                assert(inner->Object_0 =~= Seq::new(
                    entries@.len(),
                    |i: int| (entries@[i].0@, json_contents(entries@[i].1)),
                ));
                assert(decreases_to!(inner => inner->Object_0));
            }
            let items = take_over_entries(entries);
            let json = Json::Object(items);
            assert(json.contents()->Object_0 =~= json_contents(value)->Object_0);
            json
        },
    }
}

/// Whether a value is null or holds a null at any depth.
pub open spec fn holds_null(value: JsonView) -> bool
    decreases value,
{
    match value {
        JsonView::Null => true,
        JsonView::Array(items) => exists|i: int|
            0 <= i < items.len() && holds_null(#[trigger] items[i]),
        JsonView::Object(entries) => exists|i: int|
            0 <= i < entries.len() && holds_null(#[trigger] entries[i].1),
        _ => false,
    }
}

/// Whether a document contains a null at any depth.
pub fn contains_json_null(value: &Json) -> (found: bool)
    ensures
        found == holds_null(value.contents()),
    decreases *value,
{
    match value {
        Json::Null => true,
        Json::Array(items) => {
            let ghost views = value.contents()->Array_0;
            let mut i: usize = 0;
            while i < items.len()
                invariant
                    i <= items@.len(),
                    *value == Json::Array(*items),
                    views == value.contents()->Array_0,
                    views.len() == items@.len(),
                    forall|k: int| 0 <= k < views.len() ==> views[k] == (#[trigger] items@[k]).contents(),
                    forall|k: int| 0 <= k < i ==> !holds_null(#[trigger] views[k]),
                decreases items@.len() - i,
            {
                let item = &items[i];
                assert(views[i as int] == item.contents());
                if contains_json_null(item) {
                    return true;
                }
                i += 1;
            }
            false
        },
        Json::Object(entries) => {
            let ghost views = value.contents()->Object_0;
            let mut i: usize = 0;
            while i < entries.len()
                invariant
                    i <= entries@.len(),
                    *value == Json::Object(*entries),
                    views == value.contents()->Object_0,
                    views.len() == entries@.len(),
                    forall|k: int|
                        0 <= k < views.len() ==> (#[trigger] views[k]).1 == entries@[k].1.contents(),
                    forall|k: int| 0 <= k < i ==> !holds_null((#[trigger] views[k]).1),
                decreases entries@.len() - i,
            {
                let item = &entries[i].1;
                assert(views[i as int].1 == item.contents());
                if contains_json_null(item) {
                    return true;
                }
                i += 1;
            }
            false
        },
        _ => false,
    }
}

/// The value of the first entry with this name.
pub open spec fn entry(entries: Seq<(Seq<char>, JsonView)>, name: Seq<char>) -> Option<JsonView>
    decreases entries.len(),
{
    if entries.len() == 0 {
        None
    } else if entries[0].0 == name {
        Some(entries[0].1)
    } else {
        entry(entries.drop_first(), name)
    }
}

/// The text of an optional value that is a string.
pub open spec fn text_of(value: Option<JsonView>) -> Option<Seq<char>> {
    match value {
        Some(JsonView::Text(text)) => Some(text),
        _ => None,
    }
}

/// The unsigned integer of an optional value that has one.
pub open spec fn unsigned_of(value: Option<JsonView>) -> Option<u64> {
    match value {
        Some(JsonView::Number(number)) => number.unsigned,
        _ => None,
    }
}

/// The entries of an optional value that is an object.
pub open spec fn object_of(value: Option<JsonView>) -> Option<Seq<(Seq<char>, JsonView)>> {
    match value {
        Some(JsonView::Object(entries)) => Some(entries),
        _ => None,
    }
}

/// The entries that a row of named values says.
pub open spec fn entries_contents(entries: Seq<(String, Json)>) -> Seq<(Seq<char>, JsonView)> {
    entries.map_values(|e: (String, Json)| (e.0@, e.1.contents()))
}

/// What an optional borrowed value says.
pub open spec fn optional_contents(value: Option<&Json>) -> Option<JsonView> {
    match value {
        Some(value) => Some(value.contents()),
        None => None,
    }
}

/// Finds the value of a named entry.
pub fn find_entry<'a>(entries: &'a Vec<(String, Json)>, name: &str) -> (value: Option<&'a Json>)
    ensures
        optional_contents(value) == entry(entries_contents(entries@), name@),
{
    let ghost views = entries_contents(entries@);
    let mut i: usize = 0;
    assert(views.skip(0) =~= views);
    while i < entries.len()
        invariant
            i <= entries@.len(),
            views == entries_contents(entries@),
            entry(views, name@) == entry(views.skip(i as int), name@),
        decreases entries@.len() - i,
    {
        assert(views.skip(i as int)[0] == views[i as int]);
        assert(views.skip(i as int).drop_first() =~= views.skip(i + 1));
        if same_text(entries[i].0.as_str(), name) {
            return Some(&entries[i].1);
        }
        i += 1;
    }
    None
}

/// The entries of a value that is an object.
pub fn as_object(value: Option<&Json>) -> (entries: Option<&Vec<(String, Json)>>)
    ensures
        match entries {
            Some(entries) => object_of(optional_contents(value)) == Some(
                entries_contents(entries@),
            ),
            None => object_of(optional_contents(value)) is None,
        },
{
    match value {
        Some(Json::Object(entries)) => {
            assert(value->0.contents()->Object_0 =~= entries_contents(entries@));
            Some(entries)
        },
        _ => None,
    }
}

/// The text of a value that is a string.
pub fn as_text(value: Option<&Json>) -> (text: Option<&str>)
    ensures
        crate::text::optional_text(text) == text_of(optional_contents(value)),
{
    match value {
        Some(Json::Text(text)) => Some(text.as_str()),
        _ => None,
    }
}

/// The unsigned integer of a value that has one.
pub fn as_unsigned(value: Option<&Json>) -> (number: Option<u64>)
    ensures
        number == unsigned_of(optional_contents(value)),
{
    match value {
        Some(Json::Number(number)) => number.unsigned,
        _ => None,
    }
}

/// Copies a value.
pub fn copy_json(value: &Json) -> (copy: Json)
    ensures
        copy.contents() == value.contents(),
    decreases *value,
{
    match value {
        Json::Null => Json::Null,
        Json::Bool(value) => Json::Bool(*value),
        Json::Number(number) => Json::Number(*number),
        Json::Text(text) => Json::Text(text.clone()),
        Json::Array(items) => {
            let mut copies: Vec<Json> = Vec::new();
            let mut i: usize = 0;
            while i < items.len()
                invariant
                    i <= items@.len(),
                    *value == Json::Array(*items),
                    copies@.len() == i,
                    forall|k: int|
                        0 <= k < i ==> (#[trigger] copies@[k]).contents() == items@[k].contents(),
                decreases items@.len() - i,
            {
                let item = &items[i];
                assert(decreases_to!(*value => value->Array_0));
                assert(decreases_to!(value->Array_0 => items@[i as int]));
                copies.push(copy_json(item));
                i += 1;
            }
            let copy = Json::Array(copies);
            assert(copy.contents()->Array_0 =~= value.contents()->Array_0);
            copy
        },
        Json::Object(entries) => {
            let mut copies: Vec<(String, Json)> = Vec::new();
            let mut i: usize = 0;
            while i < entries.len()
                invariant
                    i <= entries@.len(),
                    *value == Json::Object(*entries),
                    copies@.len() == i,
                    forall|k: int|
                        0 <= k < i ==> (#[trigger] copies@[k]).0@ == entries@[k].0@
                            && copies@[k].1.contents() == entries@[k].1.contents(),
                decreases entries@.len() - i,
            {
                let item = &entries[i].1;
                assert(decreases_to!(*value => value->Object_0));
                assert(decreases_to!(value->Object_0 => entries@[i as int]));
                assert(decreases_to!(entries@[i as int] => entries@[i as int].1));
                copies.push((entries[i].0.clone(), copy_json(item)));
                i += 1;
            }
            let copy = Json::Object(copies);
            assert(copy.contents()->Object_0 =~= value.contents()->Object_0);
            copy
        },
    }
}

/// An object's entries without those of one name.
pub open spec fn without_entry(
    entries: Seq<(Seq<char>, JsonView)>,
    name: Seq<char>,
) -> Seq<(Seq<char>, JsonView)> {
    entries.filter(|e: (Seq<char>, JsonView)| e.0 != name)
}

/// Copies an object's entries without those of one name.
pub fn copy_without(entries: &Vec<(String, Json)>, name: &str) -> (copies: Vec<(String, Json)>)
    ensures
        entries_contents(copies@) == without_entry(entries_contents(entries@), name@),
{
    let ghost views = entries_contents(entries@);
    let ghost keep = |e: (Seq<char>, JsonView)| e.0 != name@;
    let mut copies: Vec<(String, Json)> = Vec::new();
    let mut i: usize = 0;
    assert(views.take(0) =~= Seq::empty());
    assert(entries_contents(copies@) =~= views.take(0).filter(keep)) by {
        reveal(Seq::filter);
    }
    while i < entries.len()
        invariant
            i <= entries@.len(),
            views == entries_contents(entries@),
            keep == (|e: (Seq<char>, JsonView)| e.0 != name@),
            entries_contents(copies@) == views.take(i as int).filter(keep),
        decreases entries@.len() - i,
    {
        assert(views.take(i + 1) =~= views.take(i as int).push(views[i as int]));
        assert(views.take(i + 1).filter(keep) == if keep(views[i as int]) {
            views.take(i as int).filter(keep).push(views[i as int])
        } else {
            views.take(i as int).filter(keep)
        }) by {
            reveal(Seq::filter);
            assert(views.take(i + 1).drop_last() =~= views.take(i as int));
        }
        if !same_text(entries[i].0.as_str(), name) {
            let ghost before = copies@;
            let item = &entries[i].1;
            copies.push((entries[i].0.clone(), copy_json(item)));
            assert(entries_contents(copies@) =~= entries_contents(before).push(views[i as int]));
        }
        i += 1;
    }
    assert(views.take(i as int) =~= views);
    copies
}

/// Reads one JSON document.
pub fn parse_document(raw: &[u8]) -> (result: Result<Json, String>)
    ensures
        match result {
            Ok(json) => json_document(raw@) == Ok::<JsonView, Seq<char>>(json.contents())
                && names_unique(json.contents()),
            Err(text) => json_document(raw@) == Err::<JsonView, Seq<char>>(text@),
        },
{
    match read_value(raw) {
        Ok(value) => Ok(take_over(value)),
        Err(text) => Err(text),
    }
}

} // verus!
