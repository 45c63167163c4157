//! JSON values: a plain tree that the rules of this library read, and its model.
use vstd::prelude::*;
use crate::float::FloatBits;
use crate::float;
use crate::ip_text;
use crate::text;

verus! {

/// The value type of `serde_json`, seen only through the functions below.
#[verifier::external_type_specification]
#[verifier::external_body]
pub struct ExValue(serde_json::Value);

/// What a JSON number is read as.
pub struct NumberModel {
    pub float: FloatBits,
    pub unsigned: Option<u64>,
    pub signed: Option<i64>,
    pub text: Seq<char>,
}

/// What a JSON value is.
pub enum Json {
    Null,
    Bool(bool),
    Number(NumberModel),
    Text(Seq<char>),
    Array(Seq<Json>),
    Object(Seq<(Seq<char>, Json)>),
}

/// A JSON number: its nearest binary64 number, its value as a `u64` and as an `i64` where it is
/// one, and its notation.
#[derive(Debug, PartialEq, Eq)]
pub struct JsonNumber {
    pub float: FloatBits,
    pub unsigned: Option<u64>,
    pub signed: Option<i64>,
    pub text: String,
}

impl View for JsonNumber {
    type V = NumberModel;

    open spec fn view(&self) -> NumberModel {
        NumberModel {
            float: self.float,
            unsigned: self.unsigned,
            signed: self.signed,
            text: self.text@,
        }
    }
}

/// A JSON value.
#[derive(Debug, PartialEq, Eq)]
pub enum JsonValue {
    Null,
    Bool(bool),
    Number(JsonNumber),
    Text(String),
    Array(Vec<JsonValue>),
    Object(Vec<(String, JsonValue)>),
}

/// The model of a value.
pub open spec fn content(value: JsonValue) -> Json
    decreases value,
{
    match value {
        JsonValue::Null => Json::Null,
        JsonValue::Bool(flag) => Json::Bool(flag),
        JsonValue::Number(number) => Json::Number(number@),
        JsonValue::Text(s) => Json::Text(s@),
        JsonValue::Array(items) => Json::Array(items_content(items@)),
        JsonValue::Object(entries) => Json::Object(entries_content(entries@)),
    }
}

/// The models of a list of values.
pub open spec fn items_content(items: Seq<JsonValue>) -> Seq<Json>
    decreases items,
{
    if items.len() == 0 {
        Seq::empty()
    } else {
        items_content(items.drop_last()).push(content(items.last()))
    }
}

/// The models of a list of named values.
pub open spec fn entries_content(entries: Seq<(String, JsonValue)>) -> Seq<(Seq<char>, Json)>
    decreases entries,
{
    if entries.len() == 0 {
        Seq::empty()
    } else {
        entries_content(entries.drop_last()).push(
            (entries.last().0@, content(entries.last().1)),
        )
    }
}

impl View for JsonValue {
    type V = Json;

    open spec fn view(&self) -> Json {
        content(*self)
    }
}

pub proof fn lemma_items_content(items: Seq<JsonValue>)
    ensures
        items_content(items).len() == items.len(),
        forall|i: int| 0 <= i < items.len() ==> #[trigger] items_content(items)[i] == content(
            items[i],
        ),
    decreases items.len(),
{
    if items.len() > 0 {
        lemma_items_content(items.drop_last());
        assert forall|i: int| 0 <= i < items.len() implies #[trigger] items_content(items)[i]
            == content(items[i]) by {
            if i < items.len() - 1 {
                assert(items_content(items)[i] == items_content(items.drop_last())[i]);
            }
        }
    }
}

pub proof fn lemma_entries_content(entries: Seq<(String, JsonValue)>)
    ensures
        entries_content(entries).len() == entries.len(),
        forall|i: int|
            0 <= i < entries.len() ==> #[trigger] entries_content(entries)[i] == (
                entries[i].0@,
                content(entries[i].1),
            ),
    decreases entries.len(),
{
    if entries.len() > 0 {
        lemma_entries_content(entries.drop_last());
        assert forall|i: int| 0 <= i < entries.len() implies #[trigger] entries_content(entries)[i]
            == (entries[i].0@, content(entries[i].1)) by {
            if i < entries.len() - 1 {
                assert(entries_content(entries)[i] == entries_content(entries.drop_last())[i]);
            }
        }
    }
}

/// What a `serde_json::Value` holds.
pub uninterp spec fn json_content(value: serde_json::Value) -> Json;

/// What the values of a list hold.
pub open spec fn value_contents(values: Seq<serde_json::Value>) -> Seq<Json> {
    Seq::new(values.len(), |i: int| json_content(values[i]))
}

/// What the named values of a list hold.
pub open spec fn member_contents(members: Seq<(String, serde_json::Value)>) -> Seq<
    (Seq<char>, Json),
> {
    Seq::new(members.len(), |i: int| (members[i].0@, json_content(members[i].1)))
}

/// The outermost layer of a `serde_json::Value`.
pub enum JsonNode {
    Null,
    Bool(bool),
    Number(Option<u64>, Option<u64>, Option<i64>, String),
    Text(String),
    Array(Vec<serde_json::Value>),
    Object(Vec<(String, serde_json::Value)>),
}

/// The model of a number that `serde_json` reads as the given values.
pub open spec fn number_model(
    bits: Option<u64>,
    unsigned: Option<u64>,
    signed: Option<i64>,
    text: Seq<char>,
) -> NumberModel {
    NumberModel {
        float: match bits {
            Some(b) => float::number(b),
            None => float::number(float::NAN),
        },
        unsigned,
        signed,
        text,
    }
}

/// Takes a `serde_json::Value` apart, one variant each. A number gives what `Number::as_f64`
/// (as its bits), `Number::as_u64`, `Number::as_i64` and its `to_string` return; an object its
/// members in the order in which `serde_json::Map` hands them out.
#[verifier::external_body]
fn json_node(value: serde_json::Value) -> (r: JsonNode)
    ensures
        match r {
            JsonNode::Null => json_content(value) == Json::Null,
            JsonNode::Bool(flag) => json_content(value) == Json::Bool(flag),
            JsonNode::Number(bits, unsigned, signed, text) => json_content(value) == Json::Number(
                number_model(bits, unsigned, signed, text@),
            ),
            JsonNode::Text(text) => json_content(value) == Json::Text(text@),
            JsonNode::Array(items) => json_content(value) == Json::Array(value_contents(items@)),
            JsonNode::Object(members) => json_content(value) == Json::Object(
                member_contents(members@),
            ),
        },
{
    match value {
        serde_json::Value::Null => JsonNode::Null,
        serde_json::Value::Bool(flag) => JsonNode::Bool(flag),
        serde_json::Value::Number(n) => JsonNode::Number(
            n.as_f64().map(|x| x.to_bits()),
            n.as_u64(),
            n.as_i64(),
            n.to_string(),
        ),
        serde_json::Value::String(text) => JsonNode::Text(text),
        serde_json::Value::Array(items) => JsonNode::Array(items),
        serde_json::Value::Object(members) => JsonNode::Object(members.into_iter().collect()),
    }
}

/// The value that a text denotes, or the message with which it is refused.
pub uninterp spec fn parsed_json(text: Seq<char>) -> Result<Json, Seq<char>>;

/// `serde_json::from_str`: the value that the text denotes, or the text of the error.
#[verifier::external_body]
fn parse_text(text: &str) -> (r: Result<serde_json::Value, String>)
    ensures
        match r {
            Ok(value) => parsed_json(text@) == Ok::<Json, Seq<char>>(json_content(value)),
            Err(message) => parsed_json(text@) == Err::<Json, Seq<char>>(message@),
        },
{
    serde_json::from_str(text).map_err(|e| e.to_string())
}

/// What stands for a character in a JSON string literal: an escape for a quote, a backslash and
/// the characters below a space, else the character itself.
pub open spec fn json_escaped(c: char) -> Seq<char> {
    if c == '"' || c == '\\' {
        seq!['\\', c]
    } else if c as int == 8 {
        seq!['\\', 'b']
    } else if c as int == 9 {
        seq!['\\', 't']
    } else if c as int == 10 {
        seq!['\\', 'n']
    } else if c as int == 12 {
        seq!['\\', 'f']
    } else if c as int == 13 {
        seq!['\\', 'r']
    } else if (c as int) < 32 {
        seq![
            '\\',
            'u',
            '0',
            '0',
            ip_text::hex_char(c as int / 16),
            ip_text::hex_char(c as int % 16),
        ]
    } else {
        seq![c]
    }
}

/// The characters of a JSON string literal for a text, without its quotes.
pub open spec fn json_inner(text: Seq<char>) -> Seq<char>
    decreases text.len(),
{
    if text.len() == 0 {
        Seq::empty()
    } else {
        json_inner(text.drop_last()) + json_escaped(text.last())
    }
}

/// A JSON string literal for a text.
pub open spec fn json_quoted(text: Seq<char>) -> Seq<char> {
    seq!['"'] + json_inner(text) + seq!['"']
}

/// `serde_json::to_string` on a string: the JSON string literal for the text, in quotes, with an
/// escape for each quote, backslash and character below a space.
#[verifier::external_body]
fn quote(text: &str) -> (r: String)
    ensures
        r@ == json_quoted(text@),
{
    serde_json::to_string(text).unwrap_or_default()
}

/// Converts a `serde_json::Value`.
pub fn from_value(value: serde_json::Value) -> (r: JsonValue)
    ensures
        r@ == json_content(value),
    decreases json_content(value),
{
    let ghost whole = json_content(value);
    match json_node(value) {
        JsonNode::Null => JsonValue::Null,
        JsonNode::Bool(flag) => JsonValue::Bool(flag),
        JsonNode::Number(bits, unsigned, signed, text) => {
            let float = match bits {
                Some(b) => float::from_bits(b),
                None => float::from_bits(float::NAN),
            };
            JsonValue::Number(JsonNumber { float, unsigned, signed, text })
        },
        JsonNode::Text(text) => JsonValue::Text(text),
        JsonNode::Array(items) => {
            let ghost all = items@;
            let mut rest = items;
            let mut out: Vec<JsonValue> = Vec::new();
            while rest.len() > 0
                invariant
                    whole == json_content(value),
                    whole == Json::Array(value_contents(all)),
                    all.len() == rest@.len() + out@.len(),
                    rest@ == all.skip(out@.len() as int),
                    items_content(out@) == value_contents(all).take(out@.len() as int),
                decreases rest@.len(),
            {
                let ghost before = out@;
                let item = rest.remove(0);
                assert(item == all[before.len() as int]);
                assert(value_contents(all)[before.len() as int] == json_content(item));
                proof {
                    let k = before.len() as int;
                    assert(decreases_to!(whole => whole->Array_0));
                    assert(decreases_to!(whole->Array_0 => whole->Array_0[k]));
                }
                out.push(from_value(item));
                assert(out@.drop_last() =~= before);
                assert(rest@ =~= all.skip(out@.len() as int));
                assert(items_content(out@) =~= value_contents(all).take(out@.len() as int));
            }
            assert(value_contents(all).take(out@.len() as int) =~= value_contents(all));
            JsonValue::Array(out)
        },
        JsonNode::Object(members) => {
            let ghost all = members@;
            let mut rest = members;
            let mut out: Vec<(String, JsonValue)> = Vec::new();
            while rest.len() > 0
                invariant
                    whole == json_content(value),
                    whole == Json::Object(member_contents(all)),
                    all.len() == rest@.len() + out@.len(),
                    rest@ == all.skip(out@.len() as int),
                    entries_content(out@) == member_contents(all).take(out@.len() as int),
                decreases rest@.len(),
            {
                let ghost before = out@;
                let (name, item) = rest.remove(0);
                assert((name, item) == all[before.len() as int]);
                assert(member_contents(all)[before.len() as int] == (name@, json_content(item)));
                proof {
                    let k = before.len() as int;
                    assert(decreases_to!(whole => whole->Object_0));
                    assert(decreases_to!(whole->Object_0 => whole->Object_0[k]));
                    assert(decreases_to!(whole->Object_0[k] => whole->Object_0[k].1));
                }
                out.push((name, from_value(item)));
                assert(out@.drop_last() =~= before);
                assert(rest@ =~= all.skip(out@.len() as int));
                assert(entries_content(out@) =~= member_contents(all).take(out@.len() as int));
            }
            assert(member_contents(all).take(out@.len() as int) =~= member_contents(all));
            JsonValue::Object(out)
        },
    }
}

/// Parses a JSON text.
pub fn parse(text: &str) -> (r: Result<JsonValue, String>)
    ensures
        match r {
            Ok(value) => parsed_json(text@) == Ok::<Json, Seq<char>>(value@),
            Err(message) => parsed_json(text@) == Err::<Json, Seq<char>>(message@),
        },
{
    match parse_text(text) {
        Ok(value) => Ok(from_value(value)),
        Err(message) => Err(message),
    }
}

impl JsonNumber {
    /// A copy of the number.
    pub fn copy(&self) -> (r: JsonNumber)
        ensures
            r@ == self@,
    {
        JsonNumber {
            float: self.float,
            unsigned: self.unsigned,
            signed: self.signed,
            text: self.text.clone(),
        }
    }
}

impl JsonValue {
    /// A copy of the value.
    pub fn copy(&self) -> (r: JsonValue)
        ensures
            r@ == self@,
        decreases self,
    {
        match self {
            JsonValue::Null => JsonValue::Null,
            JsonValue::Bool(flag) => JsonValue::Bool(*flag),
            JsonValue::Number(number) => JsonValue::Number(number.copy()),
            JsonValue::Text(s) => JsonValue::Text(s.clone()),
            JsonValue::Array(items) => {
                let mut out: Vec<JsonValue> = Vec::new();
                let mut i: usize = 0;
                while i < items.len()
                    invariant
                        i <= items@.len(),
                        self == JsonValue::Array(*items),
                        out@.len() == i,
                        items_content(out@) == items_content(items@).take(i as int),
                    decreases items@.len() - i,
                {
                    proof {
                        lemma_items_content(items@);
                    }
                    let ghost before = out@;
                    assert(decreases_to!(*self => self->Array_0));
                    assert(decreases_to!(self->Array_0 => self->Array_0@));
                    assert(decreases_to!(items@ => items@[i as int]));
                    out.push(items[i].copy());
                    i += 1;
                    assert(out@.drop_last() =~= before);
                    assert(items_content(out@) =~= items_content(items@).take(i as int));
                }
                proof {
                    lemma_items_content(items@);
                    assert(items_content(items@).take(i as int) =~= items_content(items@));
                }
                JsonValue::Array(out)
            },
            JsonValue::Object(entries) => {
                let mut out: Vec<(String, JsonValue)> = Vec::new();
                let mut i: usize = 0;
                while i < entries.len()
                    invariant
                        i <= entries@.len(),
                        self == JsonValue::Object(*entries),
                        out@.len() == i,
                        entries_content(out@) == entries_content(entries@).take(i as int),
                    decreases entries@.len() - i,
                {
                    proof {
                        lemma_entries_content(entries@);
                    }
                    let ghost before = out@;
                    let name = entries[i].0.clone();
                    assert(decreases_to!(*self => self->Object_0));
                    assert(decreases_to!(self->Object_0 => self->Object_0@));
                    assert(decreases_to!(entries@ => entries@[i as int]));
                    assert(decreases_to!(entries@[i as int] => entries@[i as int].1));
                    out.push((name, entries[i].1.copy()));
                    i += 1;
                    assert(out@.drop_last() =~= before);
                    assert(entries_content(out@) =~= entries_content(entries@).take(i as int));
                }
                proof {
                    lemma_entries_content(entries@);
                    assert(entries_content(entries@).take(i as int) =~= entries_content(entries@));
                }
                JsonValue::Object(out)
            },
        }
    }
}

/// The value that stands first under a name.
pub open spec fn lookup(entries: Seq<(Seq<char>, Json)>, name: Seq<char>) -> Option<Json>
    decreases entries.len(),
{
    if entries.len() == 0 {
        None
    } else if entries[0].0 == name {
        Some(entries[0].1)
    } else {
        lookup(entries.drop_first(), name)
    }
}

/// The entries with one value put under a name, in the order of the names.
pub open spec fn with_entry(
    entries: Seq<(Seq<char>, Json)>,
    name: Seq<char>,
    value: Json,
) -> Seq<(Seq<char>, Json)>
    decreases entries.len(),
{
    if entries.len() == 0 {
        seq![(name, value)]
    } else if entries[0].0 == name {
        seq![(name, value)] + entries.drop_first()
    } else if text::text_before(name, entries[0].0) {
        seq![(name, value)] + entries
    } else {
        seq![entries[0]] + with_entry(entries.drop_first(), name, value)
    }
}

/// Looking up after a value was put under a name.
pub proof fn lemma_with_entry(
    entries: Seq<(Seq<char>, Json)>,
    name: Seq<char>,
    value: Json,
    other: Seq<char>,
)
    ensures
        lookup(with_entry(entries, name, value), other) == if other == name {
            Some(value)
        } else {
            lookup(entries, other)
        },
    decreases entries.len(),
{
    let next = with_entry(entries, name, value);
    if entries.len() == 0 {
        assert(next.drop_first() =~= Seq::empty());
        assert(lookup(next.drop_first(), other) is None);
    } else if entries[0].0 == name {
        assert(next.drop_first() =~= entries.drop_first());
    } else if text::text_before(name, entries[0].0) {
        assert(next.drop_first() =~= entries);
    } else {
        assert(next.drop_first() =~= with_entry(entries.drop_first(), name, value));
        lemma_with_entry(entries.drop_first(), name, value, other);
    }
}

/// The member of an object under a name.
pub open spec fn field(value: Json, name: Seq<char>) -> Option<Json> {
    match value {
        Json::Object(entries) => lookup(entries, name),
        _ => None,
    }
}

/// The member of a member.
pub open spec fn field2(value: Json, outer: Seq<char>, inner: Seq<char>) -> Option<Json> {
    match field(value, outer) {
        Some(child) => field(child, inner),
        None => None,
    }
}

/// The text that a value is.
pub open spec fn as_text(value: Option<Json>) -> Option<Seq<char>> {
    match value {
        Some(Json::Text(s)) => Some(s),
        _ => None,
    }
}

/// The list that a value is.
pub open spec fn as_array(value: Option<Json>) -> Option<Seq<Json>> {
    match value {
        Some(Json::Array(items)) => Some(items),
        _ => None,
    }
}

/// The `u64` that a value is.
pub open spec fn as_unsigned(value: Option<Json>) -> Option<u64> {
    match value {
        Some(Json::Number(n)) => n.unsigned,
        _ => None,
    }
}

/// The `i64` that a value is.
pub open spec fn as_signed(value: Option<Json>) -> Option<i64> {
    match value {
        Some(Json::Number(n)) => n.signed,
        _ => None,
    }
}

/// The truth value that a value is.
pub open spec fn as_bool(value: Option<Json>) -> Option<bool> {
    match value {
        Some(Json::Bool(flag)) => Some(flag),
        _ => None,
    }
}

/// The model of an optional value.
pub open spec fn model(value: Option<&JsonValue>) -> Option<Json> {
    match value {
        Some(v) => Some(v@),
        None => None,
    }
}

fn position(entries: &Vec<(String, JsonValue)>, name: &str) -> (r: Option<usize>)
    ensures
        match r {
            Some(i) => i < entries@.len() && lookup(entries_content(entries@), name@) == Some(
                entries@[i as int].1@,
            ),
            None => lookup(entries_content(entries@), name@) is None,
        },
{
    let ghost all = entries_content(entries@);
    let mut i: usize = 0;
    proof {
        lemma_entries_content(entries@);
        assert(all.skip(0) =~= all);
    }
    while i < entries.len()
        invariant
            i <= entries@.len(),
            all == entries_content(entries@),
            all.len() == entries@.len(),
            forall|k: int|
                0 <= k < entries@.len() ==> #[trigger] all[k] == (
                    entries@[k].0@,
                    content(entries@[k].1),
                ),
            lookup(all, name@) == lookup(all.skip(i as int), name@),
        decreases entries@.len() - i,
    {
        assert(all.skip(i as int)[0] == all[i as int]);
        if text::same_text(entries[i].0.as_str(), name) {
            return Some(i);
        }
        assert(all.skip(i as int).drop_first() =~= all.skip(i + 1));
        i += 1;
    }
    assert(all.skip(i as int) =~= Seq::empty());
    None
}

/// Puts a value under a name.
pub fn set_entry(entries: &mut Vec<(String, JsonValue)>, name: String, value: JsonValue)
    ensures
        entries_content(final(entries)@) == with_entry(
            entries_content(old(entries)@),
            name@,
            value@,
        ),
{
    let ghost before = entries@;
    let ghost all = entries_content(entries@);
    let mut i: usize = 0;
    proof {
        lemma_entries_content(entries@);
        assert(all.skip(0) =~= all);
        assert(all.take(0) + with_entry(all, name@, value@) =~= with_entry(all, name@, value@));
    }
    while i < entries.len()
        invariant
            i <= entries@.len(),
            entries@ == before,
            before == old(entries)@,
            all == entries_content(before),
            all.len() == before.len(),
            forall|k: int|
                0 <= k < before.len() ==> #[trigger] all[k] == (
                    before[k].0@,
                    content(before[k].1),
                ),
            with_entry(all, name@, value@) == all.take(i as int) + with_entry(
                all.skip(i as int),
                name@,
                value@,
            ),
        decreases entries@.len() - i,
    {
        assert(all.skip(i as int)[0] == all[i as int]);
        assert(all.skip(i as int).drop_first() =~= all.skip(i + 1));
        if text::same_text(entries[i].0.as_str(), name.as_str()) {
            entries.remove(i);
            entries.insert(i, (name, value));
            proof {
                lemma_entries_content(entries@);
                assert(entries_content(entries@) =~= with_entry(all, name@, value@));
            }
            return;
        }
        if text::comes_before(name.as_str(), entries[i].0.as_str()) {
            entries.insert(i, (name, value));
            proof {
                lemma_entries_content(entries@);
                assert(entries_content(entries@) =~= with_entry(all, name@, value@));
            }
            return;
        }
        proof {
            assert(all.take(i as int) + (seq![all[i as int]] + with_entry(
                all.skip(i + 1),
                name@,
                value@,
            )) =~= all.take(i + 1) + with_entry(all.skip(i + 1), name@, value@));
        }
        i += 1;
    }
    assert(all.skip(i as int) =~= Seq::empty());
    entries.push((name, value));
    proof {
        lemma_entries_content(entries@);
        assert(entries_content(entries@) =~= with_entry(all, name@, value@));
    }
}

/// Adds a named value behind the others.
pub fn push_entry(entries: &mut Vec<(String, JsonValue)>, name: &str, value: JsonValue)
    ensures
        entries_content(final(entries)@) == entries_content(old(entries)@).push((name@, value@)),
{
    let ghost before = entries@;
    entries.push((name.to_owned(), value));
    assert(entries@.drop_last() =~= before);
}

/// Adds a value behind the others.
pub fn push_item(items: &mut Vec<JsonValue>, value: JsonValue)
    ensures
        items_content(final(items)@) == items_content(old(items)@).push(value@),
{
    let ghost before = items@;
    items.push(value);
    assert(items@.drop_last() =~= before);
}

/// What a member becomes where the incoming value is laid over the one that is there.
pub open spec fn merged_member(existing: Option<Json>, incoming: Json) -> Json
    decreases incoming, 1int,
{
    match incoming {
        Json::Object(_) => merged(
            match existing {
                Some(Json::Object(entries)) => Json::Object(entries),
                _ => Json::Object(Seq::empty()),
            },
            incoming,
        ),
        _ => incoming,
    }
}

/// The entries with the incoming ones laid over them, one after the other.
pub open spec fn merged_entries(
    base: Seq<(Seq<char>, Json)>,
    incoming: Seq<(Seq<char>, Json)>,
) -> Seq<(Seq<char>, Json)>
    decreases incoming, 0int,
{
    if incoming.len() == 0 {
        base
    } else {
        let before = merged_entries(base, incoming.drop_last());
        let (name, value) = incoming.last();
        with_entry(before, name, merged_member(lookup(before, name), value))
    }
}

/// The base value with the incoming object laid over it: objects are merged member by member,
/// anything else replaces what is there. An incoming value that is no object changes nothing.
pub open spec fn merged(base: Json, incoming: Json) -> Json
    decreases incoming, 0int,
{
    match incoming {
        Json::Object(entries) => Json::Object(
            merged_entries(
                match base {
                    Json::Object(own) => own,
                    _ => Seq::empty(),
                },
                entries,
            ),
        ),
        _ => base,
    }
}

/// Lays an incoming object over a base value.
pub fn deep_merge(base: &JsonValue, incoming: &JsonValue) -> (r: JsonValue)
    ensures
        r@ == merged(base@, incoming@),
    decreases incoming,
{
    let entries = match incoming {
        JsonValue::Object(entries) => entries,
        _ => {
            return base.copy();
        },
    };
    let mut next: Vec<(String, JsonValue)> = match base.copy() {
        JsonValue::Object(own) => own,
        _ => Vec::new(),
    };
    let ghost start = entries_content(next@);
    let ghost all = entries_content(entries@);
    let mut i: usize = 0;
    assert(all.take(0) =~= Seq::empty());
    while i < entries.len()
        invariant
            i <= entries@.len(),
            *incoming == JsonValue::Object(*entries),
            all == entries_content(entries@),
            entries_content(next@) == merged_entries(start, all.take(i as int)),
        decreases entries@.len() - i,
    {
        proof {
            lemma_entries_content(entries@);
            assert(all.take(i + 1).drop_last() =~= all.take(i as int));
            assert(all.take(i + 1).last() == all[i as int]);
            assert(decreases_to!(*incoming => incoming->Object_0));
            assert(decreases_to!(incoming->Object_0 => incoming->Object_0@));
            assert(decreases_to!(entries@ => entries@[i as int]));
            assert(decreases_to!(entries@[i as int] => entries@[i as int].1));
        }
        let name = entries[i].0.clone();
        let value = &entries[i].1;
        let merged_value = match value {
            JsonValue::Object(_) => {
                let child = match position(&next, name.as_str()) {
                    Some(at) => match next[at].1.copy() {
                        JsonValue::Object(own) => JsonValue::Object(own),
                        _ => JsonValue::Object(Vec::new()),
                    },
                    None => JsonValue::Object(Vec::new()),
                };
                deep_merge(&child, value)
            },
            _ => value.copy(),
        };
        assert(merged_value@ == merged_member(lookup(entries_content(next@), name@), value@));
        set_entry(&mut next, name, merged_value);
        i += 1;
    }
    proof {
        lemma_entries_content(entries@);
        assert(all.take(i as int) =~= all);
    }
    JsonValue::Object(next)
}

/// No name stands twice.
pub open spec fn distinct_names(entries: Seq<(Seq<char>, Json)>) -> bool {
    forall|i: int, j: int|
        0 <= i < j < entries.len() ==> (#[trigger] entries[i]).0 != (#[trigger] entries[j]).0
}

proof fn lemma_lookup_last(entries: Seq<(Seq<char>, Json)>, name: Seq<char>)
    requires
        entries.len() > 0,
        distinct_names(entries),
    ensures
        lookup(entries, name) == if entries.last().0 == name {
            Some(entries.last().1)
        } else {
            lookup(entries.drop_last(), name)
        },
    decreases entries.len(),
{
    if entries.len() == 1 {
        assert(entries.drop_first() =~= Seq::empty());
        assert(entries.drop_last() =~= Seq::empty());
    } else {
        let rest = entries.drop_first();
        assert(distinct_names(rest)) by {
            assert forall|i: int, j: int| 0 <= i < j < rest.len() implies (#[trigger] rest[i]).0
                != (#[trigger] rest[j]).0 by {
                assert(entries[i + 1].0 != entries[j + 1].0);
            }
        }
        lemma_lookup_last(rest, name);
        assert(rest.drop_last() =~= entries.drop_last().drop_first());
        assert(entries.drop_last()[0] == entries[0]);
        assert(entries[0].0 != entries[entries.len() - 1].0);
    }
}

/// Merging acts on each name by itself: a name that the incoming object lacks keeps its value,
/// one that it has takes the incoming value, and where both are objects they are merged in turn.
/// A name is there afterwards where it was in either.
pub proof fn law_merge_by_name(
    base: Seq<(Seq<char>, Json)>,
    incoming: Seq<(Seq<char>, Json)>,
    name: Seq<char>,
)
    requires
        distinct_names(incoming),
    ensures
        field(merged(Json::Object(base), Json::Object(incoming)), name) == match lookup(
            incoming,
            name,
        ) {
            Some(value) => Some(merged_member(lookup(base, name), value)),
            None => lookup(base, name),
        },
        field(merged(Json::Object(base), Json::Object(incoming)), name) is Some <==> lookup(
            base,
            name,
        ) is Some || lookup(incoming, name) is Some,
        match (lookup(base, name), lookup(incoming, name)) {
            (Some(Json::Object(own)), Some(Json::Object(value))) => field(
                merged(Json::Object(base), Json::Object(incoming)),
                name,
            ) == Some(merged(Json::Object(own), Json::Object(value))),
            (_, Some(value)) => !(value is Object) ==> field(
                merged(Json::Object(base), Json::Object(incoming)),
                name,
            ) == Some(value),
            (own, None) => field(merged(Json::Object(base), Json::Object(incoming)), name) == own,
        },
    decreases incoming.len(),
{
    if incoming.len() > 0 {
        let shorter = incoming.drop_last();
        assert(distinct_names(shorter)) by {
            assert forall|i: int, j: int| 0 <= i < j < shorter.len() implies (
            #[trigger] shorter[i]).0 != (#[trigger] shorter[j]).0 by {
                assert(incoming[i].0 != incoming[j].0);
            }
        }
        let (last_name, last_value) = incoming.last();
        law_merge_by_name(base, shorter, name);
        law_merge_by_name(base, shorter, last_name);
        lemma_lookup_last(incoming, name);
        let before = merged_entries(base, shorter);
        lemma_with_entry(
            before,
            last_name,
            merged_member(lookup(before, last_name), last_value),
            name,
        );
        if name == last_name {
            lemma_absent(shorter, last_name);
        }
    }
}

proof fn lemma_absent(entries: Seq<(Seq<char>, Json)>, name: Seq<char>)
    requires
        forall|i: int| 0 <= i < entries.len() ==> (#[trigger] entries[i]).0 != name,
    ensures
        lookup(entries, name) is None,
    decreases entries.len(),
{
    if entries.len() > 0 {
        lemma_absent(entries.drop_first(), name);
    }
}

/// Merging with an object that has no members gives the object back.
pub proof fn law_merge_empty(base: Seq<(Seq<char>, Json)>)
    ensures
        merged(Json::Object(base), Json::Object(Seq::empty())) == Json::Object(base),
{
}

/// An incoming value that is no object changes nothing.
pub proof fn law_merge_no_object(base: Json, incoming: Json)
    requires
        !(incoming is Object),
    ensures
        merged(base, incoming) == base,
{
}

/// The names are in ascending order.
pub open spec fn ascending(entries: Seq<(Seq<char>, Json)>) -> bool {
    forall|i: int, j: int|
        0 <= i < j < entries.len() ==> text::text_before(
            (#[trigger] entries[i]).0,
            (#[trigger] entries[j]).0,
        )
}

/// The members of every object that is reached from the value through objects stand in ascending
/// order of their names, as those of a parsed document do.
pub open spec fn well_ordered(value: Json) -> bool
    decreases value,
{
    match value {
        Json::Object(entries) => ascending(entries) && forall|i: int|
            #![trigger entries[i]]
            0 <= i < entries.len() ==> well_ordered(entries[i].1),
        _ => true,
    }
}

proof fn lemma_ascending_distinct(entries: Seq<(Seq<char>, Json)>)
    requires
        ascending(entries),
    ensures
        distinct_names(entries),
{
    assert forall|i: int, j: int| 0 <= i < j < entries.len() implies (#[trigger] entries[i]).0 != (
    #[trigger] entries[j]).0 by {
        text::law_text_order(entries[i].0, entries[i].0);
    }
}

proof fn lemma_rest_ascending(entries: Seq<(Seq<char>, Json)>)
    requires
        entries.len() > 0,
        ascending(entries),
    ensures
        ascending(entries.drop_first()),
        ascending(entries.drop_last()),
{
    let rest = entries.drop_first();
    assert forall|i: int, j: int| 0 <= i < j < rest.len() implies text::text_before(
        (#[trigger] rest[i]).0,
        (#[trigger] rest[j]).0,
    ) by {
        assert(rest[i] == entries[i + 1]);
        assert(rest[j] == entries[j + 1]);
    }
}

/// Every value satisfies what is well ordered, name by name.
spec fn values_ordered(entries: Seq<(Seq<char>, Json)>) -> bool {
    forall|i: int| 0 <= i < entries.len() ==> well_ordered((#[trigger] entries[i]).1)
}

proof fn lemma_with_entry_ordered(entries: Seq<(Seq<char>, Json)>, name: Seq<char>, value: Json)
    requires
        ascending(entries),
        values_ordered(entries),
        well_ordered(value),
    ensures
        ascending(with_entry(entries, name, value)),
        values_ordered(with_entry(entries, name, value)),
        forall|i: int|
            0 <= i < with_entry(entries, name, value).len() ==> (#[trigger] with_entry(
                entries,
                name,
                value,
            )[i]).0 == name || exists|k: int|
                0 <= k < entries.len() && (#[trigger] entries[k]).0 == with_entry(
                    entries,
                    name,
                    value,
                )[i].0,
    decreases entries.len(),
{
    let next = with_entry(entries, name, value);
    if entries.len() == 0 {
    } else if entries[0].0 == name {
        assert forall|i: int, j: int| 0 <= i < j < next.len() implies text::text_before(
            (#[trigger] next[i]).0,
            (#[trigger] next[j]).0,
        ) by {
            assert(next[j] == entries[j]);
            assert(next[i].0 == entries[i].0);
        }
        assert forall|i: int| 0 <= i < next.len() implies well_ordered(
            (#[trigger] next[i]).1,
        ) by {
            if i > 0 {
                assert(next[i] == entries[i]);
            }
        }
        assert forall|i: int| 0 <= i < next.len() implies (#[trigger] next[i]).0 == name || exists|
            k: int,
        |
            0 <= k < entries.len() && (#[trigger] entries[k]).0 == next[i].0 by {
            if i > 0 {
                assert(next[i] == entries[i]);
            }
        }
    } else if text::text_before(name, entries[0].0) {
        assert forall|i: int, j: int| 0 <= i < j < next.len() implies text::text_before(
            (#[trigger] next[i]).0,
            (#[trigger] next[j]).0,
        ) by {
            assert(next[j] == entries[j - 1]);
            if i == 0 {
                if j > 1 {
                    text::law_text_order_transitive(name, entries[0].0, entries[j - 1].0);
                }
            } else {
                assert(next[i] == entries[i - 1]);
            }
        }
        assert forall|i: int| 0 <= i < next.len() implies well_ordered(
            (#[trigger] next[i]).1,
        ) by {
            if i > 0 {
                assert(next[i] == entries[i - 1]);
            }
        }
        assert forall|i: int| 0 <= i < next.len() implies (#[trigger] next[i]).0 == name || exists|
            k: int,
        |
            0 <= k < entries.len() && (#[trigger] entries[k]).0 == next[i].0 by {
            if i > 0 {
                assert(next[i] == entries[i - 1]);
            }
        }
    } else {
        let rest = entries.drop_first();
        lemma_rest_ascending(entries);
        assert forall|i: int| 0 <= i < rest.len() implies well_ordered((#[trigger] rest[i]).1) by {
            assert(rest[i] == entries[i + 1]);
        }
        lemma_with_entry_ordered(rest, name, value);
        let tail = with_entry(rest, name, value);
        text::law_text_order(name, entries[0].0);
        assert forall|i: int| 0 <= i < tail.len() implies text::text_before(
            entries[0].0,
            (#[trigger] tail[i]).0,
        ) by {
            if tail[i].0 != name {
                let k = choose|k: int|
                    0 <= k < rest.len() && (#[trigger] rest[k]).0 == tail[i].0;
                assert(rest[k] == entries[k + 1]);
            }
        }
        assert forall|i: int, j: int| 0 <= i < j < next.len() implies text::text_before(
            (#[trigger] next[i]).0,
            (#[trigger] next[j]).0,
        ) by {
            assert(next[j] == tail[j - 1]);
            if i > 0 {
                assert(next[i] == tail[i - 1]);
            }
        }
        assert forall|i: int| 0 <= i < next.len() implies well_ordered(
            (#[trigger] next[i]).1,
        ) by {
            if i > 0 {
                assert(next[i] == tail[i - 1]);
            } else {
                assert(next[0] == entries[0]);
            }
        }
        assert forall|i: int| 0 <= i < next.len() implies (#[trigger] next[i]).0 == name || exists|
            k: int,
        |
            0 <= k < entries.len() && (#[trigger] entries[k]).0 == next[i].0 by {
            if i > 0 {
                assert(next[i] == tail[i - 1]);
                if tail[i - 1].0 != name {
                    let k = choose|k: int|
                        0 <= k < rest.len() && (#[trigger] rest[k]).0 == tail[i - 1].0;
                    assert(entries[k + 1] == rest[k]);
                }
            } else {
                assert(next[0] == entries[0]);
            }
        }
    }
}

proof fn lemma_lookup_ordered(entries: Seq<(Seq<char>, Json)>, name: Seq<char>)
    requires
        values_ordered(entries),
    ensures
        lookup(entries, name) matches Some(value) ==> well_ordered(value),
    decreases entries.len(),
{
    if entries.len() > 0 && entries[0].0 != name {
        let rest = entries.drop_first();
        assert forall|i: int| 0 <= i < rest.len() implies well_ordered((#[trigger] rest[i]).1) by {
            assert(rest[i] == entries[i + 1]);
        }
        lemma_lookup_ordered(rest, name);
    }
}

proof fn lemma_same_entry(entries: Seq<(Seq<char>, Json)>, name: Seq<char>)
    requires
        ascending(entries),
        lookup(entries, name) is Some,
    ensures
        with_entry(entries, name, lookup(entries, name)->0) == entries,
    decreases entries.len(),
{
    let value = lookup(entries, name)->0;
    if entries[0].0 == name {
        assert(with_entry(entries, name, value) =~= entries);
    } else {
        let rest = entries.drop_first();
        lemma_rest_ascending(entries);
        lemma_found(rest, name);
        let k = choose|k: int| 0 <= k < rest.len() && (#[trigger] rest[k]).0 == name;
        assert(rest[k] == entries[k + 1]);
        text::law_text_order(name, entries[0].0);
        lemma_same_entry(rest, name);
        assert(seq![entries[0]] + rest =~= entries);
    }
}

proof fn lemma_found(entries: Seq<(Seq<char>, Json)>, name: Seq<char>)
    requires
        lookup(entries, name) is Some,
    ensures
        exists|k: int| 0 <= k < entries.len() && (#[trigger] entries[k]).0 == name,
    decreases entries.len(),
{
    if entries[0].0 != name {
        let rest = entries.drop_first();
        lemma_found(rest, name);
        let k = choose|k: int| 0 <= k < rest.len() && (#[trigger] rest[k]).0 == name;
        assert(rest[k] == entries[k + 1]);
    }
}

pub proof fn lemma_lookup_at(entries: Seq<(Seq<char>, Json)>, k: int)
    requires
        distinct_names(entries),
        0 <= k < entries.len(),
    ensures
        lookup(entries, entries[k].0) == Some(entries[k].1),
    decreases entries.len(),
{
    if k > 0 {
        let rest = entries.drop_first();
        assert forall|i: int, j: int| 0 <= i < j < rest.len() implies (#[trigger] rest[i]).0 != (
        #[trigger] rest[j]).0 by {
            assert(entries[i + 1].0 != entries[j + 1].0);
        }
        assert(rest[k - 1] == entries[k]);
        assert(entries[0].0 != entries[k].0);
        lemma_lookup_at(rest, k - 1);
    }
}

proof fn lemma_member_ordered(existing: Option<Json>, incoming: Json)
    requires
        existing matches Some(value) ==> well_ordered(value),
        well_ordered(incoming),
    ensures
        well_ordered(merged_member(existing, incoming)),
        merged_member(Some(merged_member(existing, incoming)), incoming) == merged_member(
            existing,
            incoming,
        ),
    decreases incoming, 3int, 0int,
{
    if incoming is Object {
        let base = match existing {
            Some(Json::Object(entries)) => Json::Object(entries),
            _ => Json::Object(Seq::empty()),
        };
        assert(well_ordered(base));
        law_merge_again(base, incoming);
    }
}

proof fn lemma_entries_ordered(base: Seq<(Seq<char>, Json)>, incoming: Json, n: int)
    requires
        ascending(base),
        values_ordered(base),
        incoming is Object,
        well_ordered(incoming),
        0 <= n <= incoming->Object_0.len(),
    ensures
        ascending(merged_entries(base, incoming->Object_0.take(n))),
        values_ordered(merged_entries(base, incoming->Object_0.take(n))),
    decreases incoming, 0int, n,
{
    let entries = incoming->Object_0;
    if n == 0 {
        assert(entries.take(0) =~= Seq::empty());
    } else {
        lemma_entries_ordered(base, incoming, n - 1);
        assert(entries.take(n).drop_last() =~= entries.take(n - 1));
        assert(entries.take(n).last() == entries[n - 1]);
        let before = merged_entries(base, entries.take(n - 1));
        let (name, value) = entries[n - 1];
        assert(well_ordered(entries[n - 1].1));
        lemma_lookup_ordered(before, name);
        assert(decreases_to!(incoming => incoming->Object_0));
        assert(decreases_to!(entries => entries[n - 1]));
        assert(decreases_to!(entries[n - 1] => entries[n - 1].1));
        lemma_member_ordered(lookup(before, name), value);
        lemma_with_entry_ordered(before, name, merged_member(lookup(before, name), value));
    }
}

proof fn lemma_entries_again(base: Seq<(Seq<char>, Json)>, incoming: Json, n: int)
    requires
        ascending(base),
        values_ordered(base),
        incoming is Object,
        well_ordered(incoming),
        0 <= n <= incoming->Object_0.len(),
    ensures
        merged_entries(merged_entries(base, incoming->Object_0), incoming->Object_0.take(n))
            == merged_entries(base, incoming->Object_0),
    decreases incoming, 1int, n,
{
    let entries = incoming->Object_0;
    let all = merged_entries(base, entries);
    if n == 0 {
        assert(entries.take(0) =~= Seq::empty());
    } else {
        lemma_entries_again(base, incoming, n - 1);
        assert(entries.take(n).drop_last() =~= entries.take(n - 1));
        assert(entries.take(n).last() == entries[n - 1]);
        let (name, value) = entries[n - 1];
        assert(well_ordered(entries[n - 1].1));
        lemma_ascending_distinct(entries);
        lemma_lookup_at(entries, n - 1);
        law_merge_by_name(base, entries, name);
        lemma_lookup_ordered(base, name);
        assert(decreases_to!(incoming => incoming->Object_0));
        assert(decreases_to!(entries => entries[n - 1]));
        assert(decreases_to!(entries[n - 1] => entries[n - 1].1));
        lemma_member_ordered(lookup(base, name), value);
        assert(entries.take(entries.len() as int) =~= entries);
        lemma_entries_ordered(base, incoming, entries.len() as int);
        lemma_same_entry(all, name);
    }
}

/// Laying the same document over a value once more changes nothing, and the result is well ordered
/// as the two are.
pub proof fn law_merge_again(base: Json, incoming: Json)
    requires
        well_ordered(base),
        well_ordered(incoming),
    ensures
        merged(merged(base, incoming), incoming) == merged(base, incoming),
        well_ordered(merged(base, incoming)),
    decreases incoming, 2int, 0int,
{
    if incoming is Object {
        let own = match base {
            Json::Object(entries) => entries,
            _ => Seq::empty(),
        };
        let entries = incoming->Object_0;
        assert(values_ordered(own));
        assert(entries.take(entries.len() as int) =~= entries);
        lemma_entries_ordered(own, incoming, entries.len() as int);
        lemma_entries_again(own, incoming, entries.len() as int);
    }
}

/// The compact notation of each value.
pub open spec fn item_texts(items: Seq<Json>) -> Seq<Seq<char>>
    decreases items,
{
    if items.len() == 0 {
        Seq::empty()
    } else {
        item_texts(items.drop_last()).push(json_text(items.last()))
    }
}

/// The compact notation of each named value.
pub open spec fn member_texts(entries: Seq<(Seq<char>, Json)>) -> Seq<Seq<char>>
    decreases entries,
{
    if entries.len() == 0 {
        Seq::empty()
    } else {
        member_texts(entries.drop_last()).push(
            json_quoted(entries.last().0) + ":"@ + json_text(entries.last().1),
        )
    }
}

/// The compact notation of a value.
pub open spec fn json_text(value: Json) -> Seq<char>
    decreases value,
{
    match value {
        Json::Null => "null"@,
        Json::Bool(flag) => if flag {
            "true"@
        } else {
            "false"@
        },
        Json::Number(number) => number.text,
        Json::Text(s) => json_quoted(s),
        Json::Array(items) => "["@ + text::joined(item_texts(items), ","@) + "]"@,
        Json::Object(entries) => "{"@ + text::joined(member_texts(entries), ","@) + "}"@,
    }
}

impl JsonValue {
    /// Writes the value without white space. The literals of its texts are those of `serde_json`,
    /// and its numbers keep the notation that `serde_json` gave them.
    pub fn to_text(&self) -> (r: String)
        ensures
            r@ == json_text(self@),
        decreases self,
    {
        match self {
            JsonValue::Null => "null".to_owned(),
            JsonValue::Bool(flag) => if *flag {
                "true".to_owned()
            } else {
                "false".to_owned()
            },
            JsonValue::Number(number) => number.text.clone(),
            JsonValue::Text(s) => quote(s.as_str()),
            JsonValue::Array(items) => {
                let mut parts: Vec<String> = Vec::new();
                let mut i: usize = 0;
                let ghost all = items_content(items@);
                assert(all.take(0) =~= Seq::empty());
                assert(text::texts(parts@) =~= Seq::empty());
                while i < items.len()
                    invariant
                        i <= items@.len(),
                        *self == JsonValue::Array(*items),
                        all == items_content(items@),
                        text::texts(parts@) == item_texts(all.take(i as int)),
                    decreases items@.len() - i,
                {
                    proof {
                        lemma_items_content(items@);
                        assert(all.take(i + 1).drop_last() =~= all.take(i as int));
                        assert(decreases_to!(*self => self->Array_0));
                        assert(decreases_to!(self->Array_0 => self->Array_0@));
                        assert(decreases_to!(items@ => items@[i as int]));
                    }
                    let part = items[i].to_text();
                    proof {
                        text::lemma_texts_push(parts@, part);
                    }
                    parts.push(part);
                    i += 1;
                }
                proof {
                    lemma_items_content(items@);
                    assert(all.take(i as int) =~= all);
                }
                let inner = text::join(&parts, ",");
                text::concat3("[", inner.as_str(), "]")
            },
            JsonValue::Object(entries) => {
                let mut parts: Vec<String> = Vec::new();
                let mut i: usize = 0;
                let ghost all = entries_content(entries@);
                assert(all.take(0) =~= Seq::empty());
                assert(text::texts(parts@) =~= Seq::empty());
                while i < entries.len()
                    invariant
                        i <= entries@.len(),
                        *self == JsonValue::Object(*entries),
                        all == entries_content(entries@),
                        text::texts(parts@) == member_texts(all.take(i as int)),
                    decreases entries@.len() - i,
                {
                    proof {
                        lemma_entries_content(entries@);
                        assert(all.take(i + 1).drop_last() =~= all.take(i as int));
                        assert(decreases_to!(*self => self->Object_0));
                        assert(decreases_to!(self->Object_0 => self->Object_0@));
                        assert(decreases_to!(entries@ => entries@[i as int]));
                        assert(decreases_to!(entries@[i as int] => entries@[i as int].1));
                    }
                    let name = quote(entries[i].0.as_str());
                    let value = entries[i].1.to_text();
                    let part = text::concat3(name.as_str(), ":", value.as_str());
                    proof {
                        text::lemma_texts_push(parts@, part);
                    }
                    parts.push(part);
                    i += 1;
                }
                proof {
                    lemma_entries_content(entries@);
                    assert(all.take(i as int) =~= all);
                }
                let inner = text::join(&parts, ",");
                text::concat3("{", inner.as_str(), "}")
            },
        }
    }

    /// The member of an object under a name.
    pub fn get(&self, name: &str) -> (r: Option<&JsonValue>)
        ensures
            model(r) == field(self@, name@),
    {
        match self {
            JsonValue::Object(entries) => match position(entries, name) {
                Some(i) => Some(&entries[i].1),
                None => None,
            },
            _ => None,
        }
    }
}

/// The member of a member.
pub fn get2<'a>(value: &'a JsonValue, outer: &str, inner: &str) -> (r: Option<&'a JsonValue>)
    ensures
        model(r) == field2(value@, outer@, inner@),
{
    match value.get(outer) {
        Some(child) => child.get(inner),
        None => None,
    }
}

/// The text that a value is.
pub fn text_of<'a>(value: Option<&'a JsonValue>) -> (r: Option<&'a str>)
    ensures
        match r {
            Some(s) => as_text(model(value)) == Some(s@),
            None => as_text(model(value)) is None,
        },
{
    match value {
        Some(JsonValue::Text(s)) => Some(s.as_str()),
        _ => None,
    }
}

/// The list that a value is.
pub fn array_of<'a>(value: Option<&'a JsonValue>) -> (r: Option<&'a Vec<JsonValue>>)
    ensures
        match r {
            Some(items) => as_array(model(value)) == Some(items_content(items@)),
            None => as_array(model(value)) is None,
        },
{
    match value {
        Some(JsonValue::Array(items)) => Some(items),
        _ => None,
    }
}

/// The `u64` that a value is.
pub fn unsigned_of(value: Option<&JsonValue>) -> (r: Option<u64>)
    ensures
        r == as_unsigned(model(value)),
{
    match value {
        Some(JsonValue::Number(n)) => n.unsigned,
        _ => None,
    }
}

/// The `i64` that a value is.
pub fn signed_of(value: Option<&JsonValue>) -> (r: Option<i64>)
    ensures
        r == as_signed(model(value)),
{
    match value {
        Some(JsonValue::Number(n)) => n.signed,
        _ => None,
    }
}

/// The truth value that a value is.
pub fn bool_of(value: Option<&JsonValue>) -> (r: Option<bool>)
    ensures
        r == as_bool(model(value)),
{
    match value {
        Some(JsonValue::Bool(flag)) => Some(*flag),
        _ => None,
    }
}

/// Whether a value counts as true.
pub open spec fn truthy(value: Json) -> bool {
    match value {
        Json::Null => false,
        Json::Bool(flag) => flag,
        Json::Number(n) => !n.float.nan() && n.float.order() != 0,
        Json::Text(s) => s.len() > 0,
        Json::Array(_) => true,
        Json::Object(_) => true,
    }
}

/// Whether there is a value and it counts as true.
pub open spec fn is_truthy(value: Option<Json>) -> bool {
    match value {
        Some(v) => truthy(v),
        None => false,
    }
}

/// Whether there is a value and it counts as true.
pub fn js_truthy(value: Option<&JsonValue>) -> (r: bool)
    ensures
        r == is_truthy(model(value)),
{
    match value {
        None => false,
        Some(JsonValue::Null) => false,
        Some(JsonValue::Bool(flag)) => *flag,
        Some(JsonValue::Number(n)) => !n.float.is_nan() && !n.float.same_number(
            &float::from_bits(0),
        ),
        Some(JsonValue::Text(s)) => s.as_str().unicode_len() > 0,
        Some(JsonValue::Array(_)) => true,
        Some(JsonValue::Object(_)) => true,
    }
}

/// The number that a value is read as; a NaN where it is none.
pub open spec fn number_reading(value: Option<Json>) -> FloatBits {
    match value {
        None => float::number(float::NAN),
        Some(Json::Null) => float::number(0),
        Some(Json::Bool(flag)) => if flag {
            float::number(float::ONE)
        } else {
            float::number(0)
        },
        Some(Json::Number(n)) => n.float,
        Some(Json::Text(s)) => if text::trimmed(s).len() == 0 {
            float::number(0)
        } else {
            match float::float_reading(text::trimmed(s)) {
                Some(bits) => float::number(bits),
                None => float::number(float::NAN),
            }
        },
        Some(Json::Array(_)) => float::number(float::NAN),
        Some(Json::Object(_)) => float::number(float::NAN),
    }
}

/// Reads a value as a number. A text that denotes none is read as a NaN.
pub fn js_to_number(value: Option<&JsonValue>) -> (r: FloatBits)
    ensures
        r == number_reading(model(value)),
{
    match value {
        None => float::from_bits(float::NAN),
        Some(JsonValue::Null) => float::from_bits(0),
        Some(JsonValue::Bool(flag)) => if *flag {
            float::from_bits(float::ONE)
        } else {
            float::from_bits(0)
        },
        Some(JsonValue::Number(n)) => n.float,
        Some(JsonValue::Text(s)) => {
            let trimmed = text::trim(s.as_str());
            if trimmed.unicode_len() == 0 {
                float::from_bits(0)
            } else {
                match float::read_float(trimmed) {
                    Some(bits) => float::from_bits(bits),
                    None => float::from_bits(float::NAN),
                }
            }
        },
        Some(JsonValue::Array(_)) => float::from_bits(float::NAN),
        Some(JsonValue::Object(_)) => float::from_bits(float::NAN),
    }
}

/// The number that a value is read as, or the default where there is none or `null`.
pub open spec fn number_or(value: Option<Json>, default: FloatBits) -> FloatBits {
    match value {
        None => default,
        Some(Json::Null) => default,
        Some(_) => number_reading(value),
    }
}

/// Reads a value as a number, with a default for a missing value and for `null`.
pub fn number_with_nullish_default(value: Option<&JsonValue>, default: FloatBits) -> (r: FloatBits)
    ensures
        r == number_or(model(value), default),
{
    match value {
        None => default,
        Some(JsonValue::Null) => default,
        Some(_) => js_to_number(value),
    }
}

/// The text that a value is written as: a string's own characters, anything else in its compact
/// notation.
pub open spec fn plain_text(value: Json) -> Seq<char> {
    match value {
        Json::Text(s) => s,
        _ => json_text(value),
    }
}

/// The text of a value that counts as true, or else the fallback.
pub open spec fn text_or(value: Option<Json>, fallback: Seq<char>) -> Seq<char> {
    match value {
        Some(v) => if truthy(v) {
            plain_text(v)
        } else {
            fallback
        },
        None => fallback,
    }
}

/// The text of a value that counts as true, or else the fallback.
pub fn string_or_truthy_fallback(value: Option<&JsonValue>, fallback: &str) -> (r: String)
    ensures
        r@ == text_or(model(value), fallback@),
{
    if !js_truthy(value) {
        return fallback.to_owned();
    }
    match value {
        Some(JsonValue::Text(s)) => s.clone(),
        Some(v) => v.to_text(),
        None => fallback.to_owned(),
    }
}

} // verus!
