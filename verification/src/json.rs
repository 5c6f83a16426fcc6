//! JSON documents as plain values.
//!
//! `serde_json` does the parsing; [`Json`] is the tree the rest of the library
//! reads. Its view, [`JsonView`], is the mathematical document: arrays are
//! sequences and objects are maps.

use vstd::prelude::*;

verus! {

/// A JSON number in the three shapes that the parser tells apart.
#[derive(Clone, Copy, Debug, PartialEq, Eq, Structural)]
pub enum JsonNumber {
    /// An integer from 0 to `u64::MAX`.
    PosInt(u64),
    /// An integer below 0.
    NegInt(i64),
    /// Any other number, as the bit pattern of an IEEE 754 binary64 value.
    Float(u64),
}

/// The mathematical content of a JSON document.
#[verifier::ext_equal]
pub ghost enum JsonView {
    Null,
    Bool(bool),
    Number(JsonNumber),
    Text(Seq<char>),
    Array(Seq<JsonView>),
    Object(Map<Seq<char>, JsonView>),
}

/// A JSON document.
#[derive(Debug)]
pub enum Json {
    Null,
    Bool(bool),
    Number(JsonNumber),
    Text(String),
    Array(Vec<Json>),
    /// The members in order; of two members with one name, the later counts.
    Object(Vec<(String, Json)>),
}

/// The object that a list of members describes: a later member replaces an
/// earlier one of the same name.
pub open spec fn members(entries: Seq<(Seq<char>, JsonView)>) -> Map<Seq<char>, JsonView>
    decreases entries.len(),
{
    if entries.len() == 0 {
        Map::empty()
    } else {
        members(entries.drop_last()).insert(entries.last().0, entries.last().1)
    }
}

impl JsonView {
    /// The member of an object with the given name; nothing else has members.
    pub open spec fn get(self, key: Seq<char>) -> Option<JsonView> {
        match self {
            JsonView::Object(map) => if map.contains_key(key) {
                Some(map[key])
            } else {
                None
            },
            _ => None,
        }
    }

    /// The text of a string value.
    pub open spec fn as_str(self) -> Option<Seq<char>> {
        match self {
            JsonView::Text(text) => Some(text),
            _ => None,
        }
    }

    /// The value of an integer that fits in `u64`.
    pub open spec fn as_u64(self) -> Option<u64> {
        match self {
            JsonView::Number(JsonNumber::PosInt(n)) => Some(n),
            _ => None,
        }
    }

    /// The value of an integer that fits in `i64`.
    pub open spec fn as_i64(self) -> Option<i64> {
        match self {
            JsonView::Number(JsonNumber::PosInt(n)) => if n <= i64::MAX {
                Some(n as i64)
            } else {
                None
            },
            JsonView::Number(JsonNumber::NegInt(n)) => Some(n),
            _ => None,
        }
    }
}

impl Json {
    pub open spec fn view(&self) -> JsonView
        decreases self,
    {
        match *self {
            Json::Null => JsonView::Null,
            Json::Bool(b) => JsonView::Bool(b),
            Json::Number(n) => JsonView::Number(n),
            Json::Text(text) => JsonView::Text(text@),
            Json::Array(items) => JsonView::Array(Json::items(items@)),
            Json::Object(entries) => JsonView::Object(members(Json::entries(entries@))),
        }
    }

    /// The elements of an array.
    pub open spec fn items(items: Seq<Json>) -> Seq<JsonView>
        decreases items,
    {
        Seq::new(
            items.len(),
            |i: int|
                if 0 <= i < items.len() {
                    items[i].view()
                } else {
                    JsonView::Null
                },
        )
    }

    /// The members of an object as listed.
    pub open spec fn entries(entries: Seq<(String, Json)>) -> Seq<(Seq<char>, JsonView)>
        decreases entries,
    {
        Seq::new(
            entries.len(),
            |i: int|
                if 0 <= i < entries.len() {
                    (entries[i].0@, entries[i].1.view())
                } else {
                    (Seq::empty(), JsonView::Null)
                },
        )
    }
}

/// `serde_json`'s document tree, opaque to the verifier.
#[verifier::external_type_specification]
#[verifier::external_body]
pub struct ExValue(serde_json::Value);

/// The document that a `serde_json::Value` holds.
pub uninterp spec fn json_value(value: serde_json::Value) -> JsonView;

/// The outcome of reading a text as one JSON document: the document, or the
/// parser's message.
pub uninterp spec fn json_of_text(text: Seq<char>) -> Result<JsonView, Seq<char>>;

/// The document that a run of bytes spells, where it spells one.
pub uninterp spec fn json_of_bytes(bytes: Seq<u8>) -> Option<JsonView>;

/// One level of a `serde_json::Value`, with its parts still unread.
enum Node<'a> {
    Null,
    Bool(bool),
    Number,
    Text(String),
    Array(&'a Vec<serde_json::Value>),
    Object(Vec<(&'a String, &'a serde_json::Value)>),
}

/// The members of an opened object, in order.
spec fn node_members(entries: Seq<(&String, &serde_json::Value)>) -> Seq<(Seq<char>, JsonView)> {
    Seq::new(entries.len(), |i: int| (entries[i].0@, json_value(*entries[i].1)))
}

/// Tells the variants of `serde_json::Value` apart.
///
/// Claimed of the enum: each variant holds what its name says, an array its
/// elements in order, and an object its members, which `serde_json::Map::iter`
/// hands out once each under distinct names. Which number a `Number` is, the
/// accessors below tell.
#[verifier::external_body]
fn open_value(value: &serde_json::Value) -> (node: Node<'_>)
    ensures
        match node {
            Node::Null => json_value(*value) == JsonView::Null,
            Node::Bool(b) => json_value(*value) == JsonView::Bool(b),
            Node::Number => json_value(*value) is Number,
            Node::Text(text) => json_value(*value) == JsonView::Text(text@),
            Node::Array(items) => json_value(*value) == JsonView::Array(
                Seq::new(items@.len(), |i: int| json_value(items@[i])),
            ),
            Node::Object(entries) => {
                &&& json_value(*value) == JsonView::Object(members(node_members(entries@)))
                &&& forall|i: int, j: int|
                    0 <= i < j < entries@.len() ==> (#[trigger] entries@[i]).0@ != (
                    #[trigger] entries@[j]).0@
            },
        },
{
    match value {
        serde_json::Value::Null => Node::Null,
        serde_json::Value::Bool(b) => Node::Bool(*b),
        serde_json::Value::Number(_) => Node::Number,
        serde_json::Value::String(text) => Node::Text(text.clone()),
        serde_json::Value::Array(items) => Node::Array(items),
        serde_json::Value::Object(map) => Node::Object(map.iter().collect()),
    }
}

/// Calls `serde_json::Value::as_u64`: the value of an integer from 0 to
/// `u64::MAX`, and nothing of any other value.
#[verifier::external_body]
fn value_as_u64(value: &serde_json::Value) -> (number: Option<u64>)
    ensures
        number == json_value(*value).as_u64(),
{
    value.as_u64()
}

/// Calls `serde_json::Value::as_i64`: the value of an integer that fits in
/// `i64`, and nothing of any other value.
#[verifier::external_body]
fn value_as_i64(value: &serde_json::Value) -> (number: Option<i64>)
    ensures
        number == json_value(*value).as_i64(),
{
    value.as_i64()
}

/// Calls `serde_json::Value::as_f64` and takes the bit pattern: of a number
/// held as binary64, that very pattern. Nothing is claimed of integers, whose
/// value the other two accessors give exactly.
#[verifier::external_body]
fn value_float_bits(value: &serde_json::Value) -> (bits: Option<u64>)
    ensures
        json_value(*value) matches JsonView::Number(JsonNumber::Float(b)) ==> bits == Some(b),
{
    value.as_f64().map(|float| float.to_bits())
}

/// Calls `serde_json::from_str`: reads a text as one JSON document. The result
/// is a function of the text alone; an error is reduced to its message.
#[verifier::external_body]
fn value_from_str(text: &str) -> (value: Result<serde_json::Value, String>)
    ensures
        match value {
            Ok(v) => json_of_text(text@) == Ok::<JsonView, Seq<char>>(json_value(v)),
            Err(message) => json_of_text(text@) == Err::<JsonView, Seq<char>>(message@),
        },
{
    serde_json::from_str(text).map_err(|error| error.to_string())
}

/// Calls `serde_json::from_slice`: reads bytes as one JSON document. The
/// result is a function of the bytes alone; the error is dropped.
#[verifier::external_body]
fn value_from_slice(bytes: &[u8]) -> (value: Option<serde_json::Value>)
    ensures
        match value {
            Some(v) => json_of_bytes(bytes@) == Some(json_value(v)),
            None => json_of_bytes(bytes@) is None,
        },
{
    serde_json::from_slice(bytes).ok()
}

/// Under distinct names every listed member is in the object, and the object
/// is finite.
proof fn lemma_members(entries: Seq<(Seq<char>, JsonView)>)
    requires
        forall|i: int, j: int|
            0 <= i < j < entries.len() ==> (#[trigger] entries[i]).0 != (#[trigger] entries[j]).0,
    ensures
        members(entries).dom().finite(),
        forall|i: int|
            0 <= i < entries.len() ==> members(entries).contains_key((#[trigger] entries[i]).0)
                && members(entries)[entries[i].0] == entries[i].1,
    decreases entries.len(),
{
    if entries.len() > 0 {
        let front = entries.drop_last();
        lemma_members(front);
        assert forall|i: int| 0 <= i < entries.len() implies members(entries).contains_key(
            (#[trigger] entries[i]).0,
        ) && members(entries)[entries[i].0] == entries[i].1 by {
            if i < front.len() {
                assert(front[i] == entries[i]);
            }
        }
    }
}

/// What stands under a name in the object that a list of members describes.
proof fn lemma_members_lookup(entries: Seq<(Seq<char>, JsonView)>, i: int)
    requires
        0 <= i < entries.len(),
        forall|j: int| i < j < entries.len() ==> (#[trigger] entries[j]).0 != entries[i].0,
    ensures
        members(entries).contains_key(entries[i].0),
        members(entries)[entries[i].0] == entries[i].1,
    decreases entries.len(),
{
    if i < entries.len() - 1 {
        let front = entries.drop_last();
        assert(entries[entries.len() - 1].0 != entries[i].0);
        assert(front[i] == entries[i]);
        lemma_members_lookup(front, i);
    }
}

/// A name that no member bears is not in the object.
proof fn lemma_members_missing(entries: Seq<(Seq<char>, JsonView)>, key: Seq<char>)
    requires
        forall|i: int| 0 <= i < entries.len() ==> (#[trigger] entries[i]).0 != key,
    ensures
        !members(entries).contains_key(key),
    decreases entries.len(),
{
    if entries.len() > 0 {
        let front = entries.drop_last();
        assert forall|i: int| 0 <= i < front.len() implies (#[trigger] front[i]).0 != key by {
            assert(front[i] == entries[i]);
        }
        assert(entries[entries.len() - 1].0 != key);
        lemma_members_missing(front, key);
    }
}

impl Json {
    /// Copies a parsed document out of `serde_json`'s tree.
    pub fn from_value(value: &serde_json::Value) -> (json: Json)
        ensures
            json@ == json_value(*value),
        decreases json_value(*value),
    {
        match open_value(value) {
            Node::Null => Json::Null,
            Node::Bool(b) => Json::Bool(b),
            Node::Number => {
                if let Some(n) = value_as_u64(value) {
                    return Json::Number(JsonNumber::PosInt(n));
                }
                if let Some(n) = value_as_i64(value) {
                    return Json::Number(JsonNumber::NegInt(n));
                }
                match value_float_bits(value) {
                    Some(bits) => Json::Number(JsonNumber::Float(bits)),
                    None => Json::Null,
                }
            },
            Node::Text(text) => Json::Text(text),
            Node::Array(items) => {
                let mut copy: Vec<Json> = Vec::new();
                for i in 0..items.len()
                    invariant
                        json_value(*value) == JsonView::Array(
                            Seq::new(items@.len(), |k: int| json_value(items@[k])),
                        ),
                        copy@.len() == i,
                        forall|k: int| 0 <= k < i ==> (#[trigger] copy@[k])@ == json_value(items@[k]),
                {
                    assert(decreases_to!(json_value(*value) => json_value(*value)->Array_0[i as int]));
                    copy.push(Json::from_value(&items[i]));
                }
                let json = Json::Array(copy);
                assert(json@->Array_0 =~= json_value(*value)->Array_0);
                json
            },
            Node::Object(entries) => {
                let ghost listed = node_members(entries@);
                proof {
                    assert forall|i: int, j: int| 0 <= i < j < listed.len() implies (
                    #[trigger] listed[i]).0 != (#[trigger] listed[j]).0 by {
                        assert(entries@[i].0@ != entries@[j].0@);
                    }
                    lemma_members(listed);
                }
                let mut copy: Vec<(String, Json)> = Vec::new();
                for i in 0..entries.len()
                    invariant
                        listed == node_members(entries@),
                        json_value(*value) == JsonView::Object(members(listed)),
                        members(listed).dom().finite(),
                        forall|k: int|
                            0 <= k < listed.len() ==> members(listed).contains_key(
                                (#[trigger] listed[k]).0,
                            ) && members(listed)[listed[k].0] == listed[k].1,
                        copy@.len() == i,
                        forall|k: int|
                            0 <= k < i ==> (#[trigger] copy@[k]).0@ == listed[k].0 && copy@[k].1@
                                == listed[k].1,
                {
                    let (name, member) = entries[i];
                    assert(listed[i as int] == (name@, json_value(*member)));
                    assert(decreases_to!(json_value(*value) => json_value(*value)->Object_0[name@]));
                    copy.push((name.clone(), Json::from_value(member)));
                }
                let json = Json::Object(copy);
                assert(Json::entries(copy@) =~= listed);
                json
            },
        }
    }

    /// Reads a text as one JSON document; an error is the parser's message.
    pub fn from_text(text: &str) -> (json: Result<Json, String>)
        ensures
            match json {
                Ok(document) => json_of_text(text@) == Ok::<JsonView, Seq<char>>(document@),
                Err(message) => json_of_text(text@) == Err::<JsonView, Seq<char>>(message@),
            },
    {
        match value_from_str(text) {
            Ok(value) => Ok(Json::from_value(&value)),
            Err(message) => Err(message),
        }
    }

    /// Reads bytes as one JSON document.
    pub fn from_bytes(bytes: &[u8]) -> (json: Option<Json>)
        ensures
            match json {
                Some(document) => json_of_bytes(bytes@) == Some(document@),
                None => json_of_bytes(bytes@) is None,
            },
    {
        match value_from_slice(bytes) {
            Some(value) => Some(Json::from_value(&value)),
            None => None,
        }
    }

    /// The member of an object with the given name.
    pub fn get(&self, key: &str) -> (member: Option<&Json>)
        ensures
            match member {
                Some(json) => self@.get(key@) == Some(json@),
                None => self@.get(key@) is None,
            },
    {
        match self {
            Json::Object(entries) => {
                let wanted = key.to_owned();
                let ghost listed = Json::entries(entries@);
                let mut i: usize = entries.len();
                while i > 0
                    invariant
                        i <= entries@.len(),
                        wanted@ == key@,
                        listed == Json::entries(entries@),
                        self@ == JsonView::Object(members(listed)),
                        forall|k: int| i <= k < listed.len() ==> (#[trigger] listed[k]).0 != key@,
                    decreases i,
                {
                    i -= 1;
                    if entries[i].0 == wanted {
                        proof {
                            lemma_members_lookup(listed, i as int);
                        }
                        return Some(&entries[i].1);
                    }
                }
                proof {
                    lemma_members_missing(listed, key@);
                }
                None
            },
            _ => None,
        }
    }

    /// Whether the value is an object.
    pub fn is_object(&self) -> (object: bool)
        ensures
            object == (self@ is Object),
    {
        match self {
            Json::Object(_) => true,
            _ => false,
        }
    }

    /// The text of a string value.
    pub fn as_str(&self) -> (text: Option<&str>)
        ensures
            match text {
                Some(t) => self@.as_str() == Some(t@),
                None => self@.as_str() is None,
            },
    {
        match self {
            Json::Text(text) => Some(text.as_str()),
            _ => None,
        }
    }

    /// The value of an integer that fits in `u64`.
    pub fn as_u64(&self) -> (number: Option<u64>)
        ensures
            number == self@.as_u64(),
    {
        match self {
            Json::Number(JsonNumber::PosInt(n)) => Some(*n),
            _ => None,
        }
    }

    /// The value of an integer that fits in `i64`.
    pub fn as_i64(&self) -> (number: Option<i64>)
        ensures
            number == self@.as_i64(),
    {
        match self {
            Json::Number(JsonNumber::PosInt(n)) => if *n <= i64::MAX as u64 {
                Some(*n as i64)
            } else {
                None
            },
            Json::Number(JsonNumber::NegInt(n)) => Some(*n),
            _ => None,
        }
    }
}

/// A member that is put into an object is found under its name and changes no
/// other; one that is taken out is not found. Nothing but an object has
/// members.
pub proof fn law_members_are_found_by_name(
    object: Map<Seq<char>, JsonView>,
    name: Seq<char>,
    other: Seq<char>,
    member: JsonView,
    value: JsonView,
)
    ensures
        JsonView::Object(object.insert(name, member)).get(name) == Some(member),
        JsonView::Object(object.remove(name)).get(name) is None,
        other != name ==> JsonView::Object(object.insert(name, member)).get(other)
            == JsonView::Object(object).get(other),
        !object.contains_key(name) ==> JsonView::Object(object).get(name) is None,
        object.contains_key(name) ==> JsonView::Object(object).get(name) == Some(object[name]),
        !(value is Object) ==> value.get(name) is None,
{
}

/// A list of members describes an object in which every listed name stands for
/// the last member of that name, and no other name stands for anything.
pub proof fn law_last_member_of_a_name_counts(
    entries: Seq<(Seq<char>, JsonView)>,
    name: Seq<char>,
    i: int,
)
    ensures
        (forall|j: int| 0 <= j < entries.len() ==> (#[trigger] entries[j]).0 != name)
            ==> !members(entries).contains_key(name),
        0 <= i < entries.len() && entries[i].0 == name && (forall|j: int|
            i < j < entries.len() ==> (#[trigger] entries[j]).0 != name) ==> members(
            entries,
        ).contains_key(name) && members(entries)[name] == entries[i].1,
{
    if forall|j: int| 0 <= j < entries.len() ==> (#[trigger] entries[j]).0 != name {
        lemma_members_missing(entries, name);
    }
    if 0 <= i < entries.len() && entries[i].0 == name && (forall|j: int|
        i < j < entries.len() ==> (#[trigger] entries[j]).0 != name) {
        lemma_members_lookup(entries, i);
    }
}

/// Only a string has a text, only an integer is read as one, and each as itself:
/// from 0 to `u64::MAX` as `u64`, and wherever it fits as `i64`.
pub proof fn law_values_are_read_as_themselves(
    value: JsonView,
    text: Seq<char>,
    unsigned: u64,
    signed: i64,
)
    ensures
        value.as_str() == Some(text) <==> value == JsonView::Text(text),
        value.as_u64() == Some(unsigned) <==> value == JsonView::Number(
            JsonNumber::PosInt(unsigned),
        ),
        value.as_i64() == Some(signed) <==> {
            ||| value == JsonView::Number(JsonNumber::NegInt(signed))
            ||| value matches JsonView::Number(JsonNumber::PosInt(n)) && n == signed
        },
{
}

/// A document stands for what it is: an array for its elements in order, an
/// object for the members that it lists.
pub proof fn law_documents_stand_for_themselves(json: Json, i: int)
    ensures
        json matches Json::Null ==> json@ == JsonView::Null,
        json matches Json::Bool(b) ==> json@ == JsonView::Bool(b),
        json matches Json::Number(n) ==> json@ == JsonView::Number(n),
        json matches Json::Text(text) ==> json@ == JsonView::Text(text@),
        json matches Json::Array(items) ==> (json@ matches JsonView::Array(views) && views.len()
            == items@.len() && (0 <= i < items@.len() ==> views[i] == items@[i]@)),
        json matches Json::Object(entries) ==> json@ == JsonView::Object(
            members(Seq::new(entries@.len(), |k: int| (entries@[k].0@, entries@[k].1@))),
        ),
{
    if let Json::Object(entries) = json {
        assert(Json::entries(entries@) =~= Seq::new(
            entries@.len(),
            |k: int| (entries@[k].0@, entries@[k].1@),
        ));
    }
}

} // verus!
