//! The canonical spelling of a JSON document, over which bridge requests are
//! signed: no white space, object fields in the byte order of their names,
//! integers only.

use crate::failure::{failure, BridgeFsError};
use crate::identifier::MAX_JSON_INTEGER;
use crate::json::{
    copy_without, entries_contents, holds_null, json_quoted, quote, without_entry, Json, JsonNumber,
    JsonView,
};
use crate::order::{
    keys_distinct, lemma_insert_place, lemma_sorted_by_key_unique, lemma_sorted_members,
    same_members, sorted_by_key, text_before, text_less,
};
use crate::text::{decimal, decimal_text, signed_decimal, signed_decimal_text};
use vstd::prelude::*;

verus! {

/// The canonical text of a number, or the reason why it has none.
pub open spec fn canonical_number(number: JsonNumber) -> Result<Seq<char>, Seq<char>> {
    match number.unsigned {
        Some(value) => if value > MAX_JSON_INTEGER {
            Err("canonical JSON integer exceeds exact range"@)
        } else {
            Ok(decimal(value as nat))
        },
        None => match number.signed {
            Some(value) => if value > MAX_JSON_INTEGER || -value > MAX_JSON_INTEGER {
                Err("canonical JSON integer exceeds exact range"@)
            } else {
                Ok(signed_decimal(value as int))
            },
            None => Err("canonical bridge JSON accepts only integers"@),
        },
    }
}

/// Canonical parts with commas between them, or the first reason among them.
pub open spec fn joined(parts: Seq<Result<Seq<char>, Seq<char>>>) -> Result<Seq<char>, Seq<char>>
    decreases parts.len(),
{
    if parts.len() == 0 {
        Ok(Seq::empty())
    } else {
        match joined(parts.drop_last()) {
            Err(reason) => Err(reason),
            Ok(head) => match parts.last() {
                Err(reason) => Err(reason),
                Ok(text) => Ok(
                    if parts.len() == 1 {
                        text
                    } else {
                        head + ","@ + text
                    },
                ),
            },
        }
    }
}

/// The canonical text of one field of an object.
pub open spec fn canonical_field(
    field: (Seq<char>, Result<Seq<char>, Seq<char>>),
) -> Result<Seq<char>, Seq<char>> {
    match field.1 {
        Ok(text) => Ok(json_quoted(field.0) + ":"@ + text),
        Err(reason) => Err(reason),
    }
}

/// A text in brackets, where there is one.
pub open spec fn enclosed(
    open: Seq<char>,
    inner: Result<Seq<char>, Seq<char>>,
    close: Seq<char>,
) -> Result<Seq<char>, Seq<char>> {
    match inner {
        Ok(text) => Ok(open + text + close),
        Err(reason) => Err(reason),
    }
}

/// The canonical text of an object, given the canonical texts of its fields.
pub open spec fn canonical_object(
    fields: Seq<(Seq<char>, Result<Seq<char>, Seq<char>>)>,
) -> Result<Seq<char>, Seq<char>> {
    enclosed(
        "{"@,
        joined(
            sorted_by_key(fields).map_values(
                |f: (Seq<char>, Result<Seq<char>, Seq<char>>)| canonical_field(f),
            ),
        ),
        "}"@,
    )
}

/// The canonical text of a document, or the first reason why it has none.
pub open spec fn canonical(value: JsonView) -> Result<Seq<char>, Seq<char>>
    decreases value,
{
    match value {
        JsonView::Null => Err("canonical bridge JSON cannot contain null"@),
        JsonView::Bool(value) => Ok(
            if value {
                "true"@
            } else {
                "false"@
            },
        ),
        JsonView::Number(number) => canonical_number(number),
        JsonView::Text(text) => Ok(json_quoted(text)),
        JsonView::Array(items) => enclosed(
            "["@,
            joined(canonical_each(items)),
            "]"@,
        ),
        JsonView::Object(entries) => canonical_object(canonical_named(entries)),
    }
}

/// The canonical texts of the items of an array.
pub open spec fn canonical_each(items: Seq<JsonView>) -> Seq<Result<Seq<char>, Seq<char>>>
    decreases items,
{
    if items.len() == 0 {
        Seq::empty()
    } else {
        canonical_each(items.subrange(0, items.len() - 1)).push(canonical(items[items.len() - 1]))
    }
}

/// The canonical texts of the values of an object, each with its name.
pub open spec fn canonical_named(entries: Seq<(Seq<char>, JsonView)>) -> Seq<
    (Seq<char>, Result<Seq<char>, Seq<char>>),
>
    decreases entries,
{
    if entries.len() == 0 {
        Seq::empty()
    } else {
        let last = entries[entries.len() - 1];
        canonical_named(entries.subrange(0, entries.len() - 1)).push((last.0, canonical(last.1)))
    }
}

proof fn lemma_canonical_each(items: Seq<JsonView>)
    ensures
        canonical_each(items).len() == items.len(),
        forall|i: int| 0 <= i < items.len() ==> #[trigger] canonical_each(items)[i] == canonical(items[i]),
    decreases items.len(),
{
    if items.len() > 0 {
        lemma_canonical_each(items.subrange(0, items.len() - 1));
    }
}

proof fn lemma_canonical_named(entries: Seq<(Seq<char>, JsonView)>)
    ensures
        canonical_named(entries).len() == entries.len(),
        forall|i: int|
            0 <= i < entries.len() ==> #[trigger] canonical_named(entries)[i] == (
                entries[i].0,
                canonical(entries[i].1),
            ),
    decreases entries.len(),
{
    if entries.len() > 0 {
        lemma_canonical_named(entries.subrange(0, entries.len() - 1));
    }
}

/// What a computed canonical text says.
pub open spec fn text_result(result: Result<String, &'static str>) -> Result<Seq<char>, Seq<char>> {
    match result {
        Ok(text) => Ok(text@),
        Err(reason) => Err(reason@),
    }
}

fn number_text(number: &JsonNumber) -> (result: Result<String, &'static str>)
    ensures
        text_result(result) == canonical_number(*number),
{
    match number.unsigned {
        Some(value) => {
            if value > MAX_JSON_INTEGER {
                Err("canonical JSON integer exceeds exact range")
            } else {
                Ok(decimal_text(value))
            }
        },
        None => match number.signed {
            Some(value) => {
                if value as i128 > MAX_JSON_INTEGER as i128 || -(value as i128)
                    > MAX_JSON_INTEGER as i128 {
                    Err("canonical JSON integer exceeds exact range")
                } else {
                    Ok(signed_decimal_text(value))
                }
            },
            None => Err("canonical bridge JSON accepts only integers"),
        },
    }
}

fn join_parts(parts: &Vec<Result<String, &'static str>>) -> (result: Result<String, &'static str>)
    ensures
        text_result(result) == joined(
            parts@.map_values(|p: Result<String, &'static str>| text_result(p)),
        ),
{
    let ghost views = parts@.map_values(|p: Result<String, &'static str>| text_result(p));
    let mut text = String::new();
    let mut i: usize = 0;
    assert(text@ =~= Seq::<char>::empty());
    assert(views.take(0) =~= Seq::empty());
    while i < parts.len()
        invariant
            i <= parts@.len(),
            views == parts@.map_values(|p: Result<String, &'static str>| text_result(p)),
            joined(views.take(i as int)) == Ok::<Seq<char>, Seq<char>>(text@),
            i == 0 ==> text@.len() == 0,
        decreases parts@.len() - i,
    {
        assert(views.take(i + 1).drop_last() =~= views.take(i as int));
        assert(views.take(i + 1).last() == text_result(parts@[i as int]));
        match &parts[i] {
            Ok(part) => {
                if i == 0 {
                    text = part.clone();
                } else {
                    text = text.concat(",").concat(part.as_str());
                }
            },
            Err(reason) => {
                proof {
                    lemma_joined_stops(views, i + 1);
                }
                return Err(*reason);
            },
        }
        i += 1;
    }
    assert(views.take(i as int) =~= views);
    Ok(text)
}

proof fn lemma_joined_stops(parts: Seq<Result<Seq<char>, Seq<char>>>, upto: int)
    requires
        0 <= upto <= parts.len(),
        joined(parts.take(upto)) is Err,
    ensures
        joined(parts) == joined(parts.take(upto)),
    decreases parts.len() - upto,
{
    if upto == parts.len() {
        assert(parts.take(upto) =~= parts);
    } else {
        assert(parts.take(upto + 1).drop_last() =~= parts.take(upto));
        lemma_joined_stops(parts, upto + 1);
    }
}

/// The places of the entries of an object, in the byte order of their names.
fn key_order(entries: &Vec<(String, Json)>) -> (places: Vec<usize>)
    ensures
        places@.len() == entries@.len(),
        forall|k: int| 0 <= k < places@.len() ==> #[trigger] places@[k] < entries@.len(),
        forall|fields: Seq<(Seq<char>, Result<Seq<char>, Seq<char>>)>|
            fields.len() == entries@.len() && (forall|i: int|
                0 <= i < fields.len() ==> (#[trigger] fields[i]).0 == entries@[i].0@)
                ==> #[trigger] sorted_by_key(fields) == places@.map_values(
                |p: usize| fields[p as int],
            ),
{
    let mut places: Vec<usize> = Vec::new();
    let mut n: usize = 0;
    assert forall|fields: Seq<(Seq<char>, Result<Seq<char>, Seq<char>>)>|
        #![trigger fields.take(0)]
        fields.len() == entries@.len() implies sorted_by_key(fields.take(0)) == places@.map_values(
        |p: usize| fields[p as int],
    ) by {
        assert(fields.take(0) =~= places@.map_values(|p: usize| fields[p as int]));
    }
    while n < entries.len()
        invariant
            n <= entries@.len(),
            places@.len() == n,
            forall|k: int| 0 <= k < n ==> #[trigger] places@[k] < n,
            forall|fields: Seq<(Seq<char>, Result<Seq<char>, Seq<char>>)>|
                #![trigger fields.take(n as int)]
                fields.len() == entries@.len() && (forall|i: int|
                    0 <= i < fields.len() ==> (#[trigger] fields[i]).0 == entries@[i].0@)
                    ==> sorted_by_key(fields.take(n as int)) == places@.map_values(
                    |p: usize| fields[p as int],
                ),
        decreases entries@.len() - n,
    {
        let ghost before = places@;
        let mut at: usize = n;
        while at > 0 && text_less(entries[n].0.as_str(), entries[places[at - 1]].0.as_str())
            invariant
                at <= n,
                n < entries@.len(),
                places@ == before,
                places@.len() == n,
                forall|k: int| 0 <= k < n ==> #[trigger] places@[k] < n,
                forall|k: int|
                    at <= k < n ==> text_before(
                        entries@[n as int].0@,
                        entries@[#[trigger] places@[k] as int].0@,
                    ),
            ensures
                at <= n,
                places@ == before,
                forall|k: int|
                    at <= k < n ==> text_before(
                        entries@[n as int].0@,
                        entries@[#[trigger] places@[k] as int].0@,
                    ),
                at > 0 ==> !text_before(
                    entries@[n as int].0@,
                    entries@[places@[at - 1] as int].0@,
                ),
            decreases at,
        {
            at -= 1;
        }
        places.insert(at, n);
        assert forall|fields: Seq<(Seq<char>, Result<Seq<char>, Seq<char>>)>|
            #![trigger fields.take(n + 1)]
            fields.len() == entries@.len() && (forall|i: int|
                0 <= i < fields.len() ==> (#[trigger] fields[i]).0 == entries@[i].0@) implies
            sorted_by_key(fields.take(n + 1)) == places@.map_values(|p: usize| fields[p as int]) by {
            let row = before.map_values(|p: usize| fields[p as int]);
            assert(sorted_by_key(fields.take(n as int)) == row);
            let item = fields[n as int];
            assert(fields.take(n + 1).drop_last() =~= fields.take(n as int));
            assert(fields.take(n + 1).last() == item);
            assert forall|k: int| at <= k < row.len() implies text_before(
                item.0,
                (#[trigger] row[k]).0,
            ) by {
                assert(before[k] < n);
                assert(fields[before[k] as int].0 == entries@[before[k] as int].0@);
            }
            if at > 0 {
                assert(before[at - 1] < n);
                assert(fields[before[at - 1] as int].0 == entries@[before[at - 1] as int].0@);
            }
            lemma_insert_place(row, item, at as int);
            assert(places@.map_values(|p: usize| fields[p as int]) =~= row.insert(
                at as int,
                item,
            ));
        }
        n += 1;
    }
    assert forall|fields: Seq<(Seq<char>, Result<Seq<char>, Seq<char>>)>|
        fields.len() == entries@.len() && (forall|i: int|
            0 <= i < fields.len() ==> (#[trigger] fields[i]).0 == entries@[i].0@) implies
        #[trigger] sorted_by_key(fields) == places@.map_values(|p: usize| fields[p as int]) by {
        assert(fields.take(n as int) =~= fields);
    }
    places
}

fn canonical_items(items: &Vec<Json>) -> (parts: Vec<Result<String, &'static str>>)
    ensures
        parts@.len() == items@.len(),
        forall|i: int|
            0 <= i < items@.len() ==> text_result(#[trigger] parts@[i]) == canonical(
                items@[i].contents(),
            ),
    decreases *items,
{
    let mut parts: Vec<Result<String, &'static str>> = Vec::new();
    let mut i: usize = 0;
    while i < items.len()
        invariant
            i <= items@.len(),
            parts@.len() == i,
            forall|k: int|
                0 <= k < i ==> text_result(#[trigger] parts@[k]) == canonical(
                    items@[k].contents(),
                ),
        decreases items@.len() - i,
    {
        assert(decreases_to!(*items => items@[i as int]));
        parts.push(write_canonical_json(&items[i]));
        i += 1;
    }
    parts
}

fn canonical_fields(entries: &Vec<(String, Json)>, places: &Vec<usize>) -> (parts: Vec<
    Result<String, &'static str>,
>)
    requires
        forall|k: int| 0 <= k < places@.len() ==> #[trigger] places@[k] < entries@.len(),
    ensures
        parts@.len() == places@.len(),
        forall|k: int|
            0 <= k < places@.len() ==> text_result(#[trigger] parts@[k]) == canonical_field(
                (
                    entries@[places@[k] as int].0@,
                    canonical(entries@[places@[k] as int].1.contents()),
                ),
            ),
    decreases *entries,
{
    let mut parts: Vec<Result<String, &'static str>> = Vec::new();
    let mut i: usize = 0;
    while i < places.len()
        invariant
            i <= places@.len(),
            parts@.len() == i,
            forall|k: int| 0 <= k < places@.len() ==> #[trigger] places@[k] < entries@.len(),
            forall|k: int|
                0 <= k < i ==> text_result(#[trigger] parts@[k]) == canonical_field(
                    (
                        entries@[places@[k] as int].0@,
                        canonical(entries@[places@[k] as int].1.contents()),
                    ),
                ),
        decreases places@.len() - i,
    {
        let place: usize = places[i];
        let entry = &entries[place];
        assert(decreases_to!(*entries => entries@[place as int]));
        assert(decreases_to!(entries@[place as int] => entries@[place as int].1));
        let part = match write_canonical_json(&entry.1) {
            Ok(text) => Ok(quote(entry.0.as_str()).concat(":").concat(text.as_str())),
            Err(reason) => Err(reason),
        };
        parts.push(part);
        i += 1;
    }
    parts
}

fn enclose(open: &str, inner: Result<String, &'static str>, close: &str) -> (result: Result<
    String,
    &'static str,
>)
    ensures
        text_result(result) == enclosed(open@, text_result(inner), close@),
{
    match inner {
        Ok(text) => Ok(open.to_owned().concat(text.as_str()).concat(close)),
        Err(reason) => Err(reason),
    }
}

/// Writes the canonical text of a document.
pub fn write_canonical_json(value: &Json) -> (result: Result<String, &'static str>)
    ensures
        text_result(result) == canonical(value.contents()),
    decreases *value,
{
    match value {
        Json::Null => Err("canonical bridge JSON cannot contain null"),
        Json::Bool(value) => if *value {
            Ok("true".to_owned())
        } else {
            Ok("false".to_owned())
        },
        Json::Number(number) => number_text(number),
        Json::Text(text) => Ok(quote(text.as_str())),
        Json::Array(items) => {
            let parts = canonical_items(items);
            proof {
                let views = value.contents()->Array_0;
                lemma_canonical_each(views);
                assert(parts@.map_values(|p: Result<String, &'static str>| text_result(p))
                    =~= canonical_each(views));
            }
            enclose("[", join_parts(&parts), "]")
        },
        Json::Object(entries) => {
            let places = key_order(entries);
            let parts = canonical_fields(entries, &places);
            proof {
                let views = value.contents()->Object_0;
                let fields = canonical_named(views);
                lemma_canonical_named(views);
                assert(sorted_by_key(fields) == places@.map_values(|p: usize| fields[p as int]));
                assert(parts@.map_values(|p: Result<String, &'static str>| text_result(p))
                    =~= sorted_by_key(fields).map_values(
                    |f: (Seq<char>, Result<Seq<char>, Seq<char>>)| canonical_field(f),
                ));
            }
            enclose("{", join_parts(&parts), "}")
        },
    }
}

/// The canonical text over which a request is signed: that of the request
/// without its signature.
pub open spec fn unsigned_canonical(
    request: Seq<(Seq<char>, JsonView)>,
) -> Result<Seq<char>, Seq<char>> {
    canonical(JsonView::Object(without_entry(request, "hmac_sha256"@)))
}

/// Writes the canonical bytes over which a request is signed.
pub fn canonical_unsigned_request(request: &Vec<(String, Json)>) -> (result: Result<
    String,
    BridgeFsError,
>)
    ensures
        match result {
            Ok(text) => unsigned_canonical(entries_contents(request@)) == Ok::<
                Seq<char>,
                Seq<char>,
            >(text@),
            Err(error) => unsigned_canonical(entries_contents(request@)) is Err && error@
                == failure(
                "completion_proof_invalid"@,
                unsigned_canonical(entries_contents(request@))->Err_0,
            ),
        },
{
    let unsigned = Json::Object(copy_without(request, "hmac_sha256"));
    assert(unsigned.contents()->Object_0 =~= without_entry(
        entries_contents(request@),
        "hmac_sha256"@,
    ));
    match write_canonical_json(&unsigned) {
        Ok(text) => Ok(text),
        Err(reason) => Err(BridgeFsError::new("completion_proof_invalid", reason.to_owned())),
    }
}

/// A document that holds a null has no canonical text.
pub proof fn law_null_has_no_canonical_text(value: JsonView)
    requires
        holds_null(value),
    ensures
        canonical(value) is Err,
    decreases value,
{
    match value {
        JsonView::Array(items) => {
            let i = choose|i: int| 0 <= i < items.len() && holds_null(#[trigger] items[i]);
            law_null_has_no_canonical_text(items[i]);
            lemma_canonical_each(items);
            lemma_joined_fails(canonical_each(items), i);
        },
        JsonView::Object(entries) => {
            let i = choose|i: int| 0 <= i < entries.len() && holds_null(#[trigger] entries[i].1);
            law_null_has_no_canonical_text(entries[i].1);
            lemma_canonical_named(entries);
            let fields = canonical_named(entries);
            lemma_sorted_members(fields);
            let sorted = sorted_by_key(fields);
            assert(fields.contains(fields[i]));
            assert(sorted.contains(fields[i]));
            let k = choose|k: int| 0 <= k < sorted.len() && sorted[k] == fields[i];
            let parts = sorted.map_values(
                |f: (Seq<char>, Result<Seq<char>, Seq<char>>)| canonical_field(f),
            );
            assert(parts[k] is Err);
            lemma_joined_fails(parts, k);
        },
        _ => {},
    }
}

proof fn lemma_joined_fails(parts: Seq<Result<Seq<char>, Seq<char>>>, at: int)
    requires
        0 <= at < parts.len(),
        parts[at] is Err,
    ensures
        joined(parts) is Err,
    decreases parts.len(),
{
    if at < parts.len() - 1 {
        lemma_joined_fails(parts.drop_last(), at);
    }
}

proof fn lemma_joined_succeeds(parts: Seq<Result<Seq<char>, Seq<char>>>)
    requires
        forall|i: int| 0 <= i < parts.len() ==> (#[trigger] parts[i]) is Ok,
    ensures
        joined(parts) is Ok,
    decreases parts.len(),
{
    if parts.len() > 0 {
        let head = parts.drop_last();
        assert forall|i: int| 0 <= i < head.len() implies (#[trigger] head[i]) is Ok by {
            assert(head[i] == parts[i]);
        }
        lemma_joined_succeeds(head);
        assert(parts[parts.len() - 1] is Ok);
    }
}

/// An array has a canonical text exactly where each of its items has one.
pub proof fn lemma_array_text(items: Seq<JsonView>)
    ensures
        canonical(JsonView::Array(items)) is Ok <==> forall|i: int|
            0 <= i < items.len() ==> canonical(#[trigger] items[i]) is Ok,
{
    lemma_canonical_each(items);
    let parts = canonical_each(items);
    if forall|i: int| 0 <= i < items.len() ==> canonical(#[trigger] items[i]) is Ok {
        assert forall|i: int| 0 <= i < parts.len() implies (#[trigger] parts[i]) is Ok by {
            assert(canonical(items[i]) is Ok);
        }
        lemma_joined_succeeds(parts);
    } else {
        let i = choose|i: int| 0 <= i < items.len() && !(canonical(#[trigger] items[i]) is Ok);
        lemma_joined_fails(parts, i);
    }
}

/// An object has a canonical text exactly where each of its values has one.
pub proof fn lemma_object_text(entries: Seq<(Seq<char>, JsonView)>)
    ensures
        canonical(JsonView::Object(entries)) is Ok <==> forall|i: int|
            0 <= i < entries.len() ==> canonical((#[trigger] entries[i]).1) is Ok,
{
    lemma_canonical_named(entries);
    let fields = canonical_named(entries);
    lemma_sorted_members(fields);
    let sorted = sorted_by_key(fields);
    let parts = sorted.map_values(
        |f: (Seq<char>, Result<Seq<char>, Seq<char>>)| canonical_field(f),
    );
    if forall|i: int| 0 <= i < entries.len() ==> canonical((#[trigger] entries[i]).1) is Ok {
        assert forall|k: int| 0 <= k < parts.len() implies (#[trigger] parts[k]) is Ok by {
            assert(sorted.contains(sorted[k]));
            assert(fields.contains(sorted[k]));
            let i = choose|i: int| 0 <= i < fields.len() && fields[i] == sorted[k];
            assert(canonical(entries[i].1) is Ok);
        }
        lemma_joined_succeeds(parts);
    } else {
        let i = choose|i: int| 0 <= i < entries.len() && !(canonical((#[trigger] entries[i]).1) is Ok);
        assert(fields.contains(fields[i]));
        assert(sorted.contains(fields[i]));
        let k = choose|k: int| 0 <= k < sorted.len() && sorted[k] == fields[i];
        assert(parts[k] is Err);
        lemma_joined_fails(parts, k);
    }
}

/// The canonical text of an object does not depend on the order in which its
/// fields were written.
pub proof fn law_canonical_ignores_field_order(
    left: Seq<(Seq<char>, JsonView)>,
    right: Seq<(Seq<char>, JsonView)>,
)
    requires
        keys_distinct(left),
        keys_distinct(right),
        same_members(left, right),
    ensures
        canonical(JsonView::Object(left)) == canonical(JsonView::Object(right)),
{
    let a = canonical_named(left);
    let b = canonical_named(right);
    lemma_canonical_named(left);
    lemma_canonical_named(right);
    assert(keys_distinct(a)) by {
        assert forall|i: int, j: int| 0 <= i < a.len() && 0 <= j < a.len() && i != j implies (
        #[trigger] a[i]).0 != (#[trigger] a[j]).0 by {
            assert(left[i].0 != left[j].0);
        }
    }
    assert(keys_distinct(b)) by {
        assert forall|i: int, j: int| 0 <= i < b.len() && 0 <= j < b.len() && i != j implies (
        #[trigger] b[i]).0 != (#[trigger] b[j]).0 by {
            assert(right[i].0 != right[j].0);
        }
    }
    assert forall|x: (Seq<char>, Result<Seq<char>, Seq<char>>)| #[trigger]
        a.contains(x) <==> b.contains(x) by {
        if a.contains(x) {
            let i = choose|i: int| 0 <= i < a.len() && a[i] == x;
            assert(left.contains(left[i]));
            assert(right.contains(left[i]));
            let j = choose|j: int| 0 <= j < right.len() && right[j] == left[i];
            assert(b[j] == x);
        }
        if b.contains(x) {
            let i = choose|i: int| 0 <= i < b.len() && b[i] == x;
            assert(right.contains(right[i]));
            assert(left.contains(right[i]));
            let j = choose|j: int| 0 <= j < left.len() && left[j] == right[i];
            assert(a[j] == x);
        }
    }
    lemma_sorted_by_key_unique(a, b);
}

/// The canonical text of a plain value: a word, a numeral or a quoted text.
pub proof fn law_canonical_text_of_plain_values(
    flag: bool,
    unsigned: u64,
    signed: i64,
    text: Seq<char>,
)
    ensures
        canonical(JsonView::Bool(flag)) == Ok::<Seq<char>, Seq<char>>(
            if flag {
                "true"@
            } else {
                "false"@
            },
        ),
        unsigned <= 9_007_199_254_740_991 ==> canonical(
            JsonView::Number(JsonNumber { unsigned: Some(unsigned), signed: Some(signed) }),
        ) == Ok::<Seq<char>, Seq<char>>(decimal(unsigned as nat)),
        -9_007_199_254_740_991 <= signed < 0 ==> canonical(
            JsonView::Number(JsonNumber { unsigned: None, signed: Some(signed) }),
        ) == Ok::<Seq<char>, Seq<char>>(seq!['-'] + decimal((-signed) as nat)),
        canonical(JsonView::Text(text)) == Ok::<Seq<char>, Seq<char>>(json_quoted(text)),
{
}

/// The canonical text of an array is that of its items in their order, with commas
/// between them, in brackets.
pub proof fn law_canonical_array_lists_its_items(items: Seq<JsonView>, last: JsonView)
    requires
        canonical(JsonView::Array(items)) is Ok,
        canonical(last) is Ok,
    ensures
        canonical(JsonView::Array(Seq::empty())) == Ok::<Seq<char>, Seq<char>>("["@ + "]"@),
        ({
            let head = canonical(JsonView::Array(items))->Ok_0;
            let inner = head.subrange(1, head.len() - 1);
            let longer = canonical(JsonView::Array(items.push(last)));
            &&& longer is Ok
            &&& items.len() == 0 ==> longer->Ok_0 == "["@ + canonical(last)->Ok_0 + "]"@
            &&& items.len() > 0 ==> longer->Ok_0 == "["@ + (inner + ","@ + canonical(last)->Ok_0)
                + "]"@
        }),
{
    reveal_strlit("[");
    reveal_strlit("]");
    let all = items.push(last);
    lemma_canonical_each(items);
    lemma_canonical_each(all);
    let parts = canonical_each(items);
    let longer = canonical_each(all);
    assert(longer =~= parts.push(canonical(last)));
    assert(longer.drop_last() =~= parts);
    let text = joined(parts)->Ok_0;
    assert(("["@ + text + "]"@).subrange(1, 1 + text.len() as int) =~= text);
    assert(canonical_each(Seq::<JsonView>::empty()) =~= Seq::empty());
    assert("["@ + Seq::<char>::empty() + "]"@ =~= "["@ + "]"@);
    if items.len() == 0 {
        assert(parts.len() == 0);
    }
}

/// The canonical text of an object with one field is the quoted name, a colon and
/// the text of the value, in braces.
pub proof fn law_canonical_object_names_its_fields(name: Seq<char>, value: JsonView)
    requires
        canonical(value) is Ok,
    ensures
        canonical(JsonView::Object(seq![(name, value)])) == Ok::<Seq<char>, Seq<char>>(
            "{"@ + (json_quoted(name) + ":"@ + canonical(value)->Ok_0) + "}"@,
        ),
{
    let entries = seq![(name, value)];
    lemma_canonical_named(entries);
    let fields = canonical_named(entries);
    assert(fields =~= seq![(name, canonical(value))]);
    assert(fields.drop_last() =~= Seq::empty());
    assert(sorted_by_key(fields.drop_last()) == fields.drop_last());
    assert(sorted_by_key(fields) =~= fields);
    let parts = fields.map_values(
        |f: (Seq<char>, Result<Seq<char>, Seq<char>>)| canonical_field(f),
    );
    assert(parts.drop_last() =~= Seq::empty());
    assert(joined(parts.drop_last()) == Ok::<Seq<char>, Seq<char>>(Seq::empty()));
}

} // verus!
