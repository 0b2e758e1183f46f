//! JSON documents as the cache reads and builds them.
//!
//! A [`Json`] holds a parsed document as plain values. What it means is a
//! [`JsonTree`], over which every contract that reads a document is stated.

use vstd::prelude::*;

use crate::ieee;
use crate::ieee::Single;
use crate::text;

verus! {

/// A JSON number, by what the cache reads of it: its value as a `u64`, if it is
/// a non-negative integer that fits, and the bits of its value in double
/// precision, if it has one.
#[derive(Clone, Copy, Debug, PartialEq, Eq, Structural)]
pub struct JsonNumber {
    pub unsigned: Option<u64>,
    pub double_bits: Option<u64>,
}

/// A JSON document.
#[derive(Debug, PartialEq)]
pub enum Json {
    Null,
    Bool(bool),
    Number(JsonNumber),
    Text(String),
    Array(Vec<Json>),
    Object(Vec<(String, Json)>),
}

/// The meaning of a [`Json`]: the same document over mathematical sequences.
pub enum JsonTree {
    Null,
    Bool(bool),
    Number(JsonNumber),
    Text(Seq<char>),
    Array(Seq<JsonTree>),
    Object(Seq<(Seq<char>, JsonTree)>),
}

impl View for Json {
    type V = JsonTree;

    open spec fn view(&self) -> JsonTree
        decreases self,
    {
        match self {
            Json::Null => JsonTree::Null,
            Json::Bool(b) => JsonTree::Bool(*b),
            Json::Number(n) => JsonTree::Number(*n),
            Json::Text(s) => JsonTree::Text(s@),
            Json::Array(items) => JsonTree::Array(
                Seq::new(
                    items@.len(),
                    |i: int|
                        if 0 <= i < items@.len() {
                            items@[i].view()
                        } else {
                            JsonTree::Null
                        },
                ),
            ),
            Json::Object(fields) => JsonTree::Object(
                Seq::new(
                    fields@.len(),
                    |i: int|
                        if 0 <= i < fields@.len() {
                            (fields@[i].0@, fields@[i].1.view())
                        } else {
                            (seq![], JsonTree::Null)
                        },
                ),
            ),
        }
    }
}

/// The meanings of the items of an array.
pub open spec fn trees(items: Seq<Json>) -> Seq<JsonTree> {
    Seq::new(items.len(), |i: int| items[i]@)
}

/// The meanings of the fields of an object.
pub open spec fn field_trees(fields: Seq<(String, Json)>) -> Seq<(Seq<char>, JsonTree)> {
    Seq::new(fields.len(), |i: int| (fields[i].0@, fields[i].1@))
}

/// The meaning of an array is that of its items.
pub proof fn lemma_array_view(items: Vec<Json>)
    ensures
        Json::Array(items)@ == JsonTree::Array(trees(items@)),
{
    reveal_with_fuel(<Json as View>::view, 2);
    let whole = Json::Array(items)@->Array_0;
    assert forall|i: int| 0 <= i < items@.len() implies whole[i] == #[trigger] trees(items@)[i] by {
        assert(whole[i] == items@[i].view());
    }
    assert(whole =~= trees(items@));
}

/// The meaning of an object is that of its fields.
pub proof fn lemma_object_view(fields: Vec<(String, Json)>)
    ensures
        Json::Object(fields)@ == JsonTree::Object(field_trees(fields@)),
{
    reveal_with_fuel(<Json as View>::view, 2);
    let whole = Json::Object(fields)@->Object_0;
    assert forall|i: int| 0 <= i < fields@.len() implies whole[i] == #[trigger] field_trees(
        fields@,
    )[i] by {
        assert(whole[i] == (fields@[i].0@, fields@[i].1.view()));
    }
    assert(whole =~= field_trees(fields@));
}

/// The value of the first field of that name.
pub open spec fn first_field(fields: Seq<(Seq<char>, JsonTree)>, name: Seq<char>) -> Option<
    JsonTree,
>
    decreases fields.len(),
{
    if fields.len() == 0 {
        None
    } else if fields[0].0 == name {
        Some(fields[0].1)
    } else {
        first_field(fields.drop_first(), name)
    }
}

impl JsonTree {
    /// The field of that name, where the document is an object that has it.
    pub open spec fn get(self, name: Seq<char>) -> Option<JsonTree> {
        match self {
            JsonTree::Object(fields) => first_field(fields, name),
            _ => None,
        }
    }

    /// The text, where the document is one.
    pub open spec fn text(self) -> Option<Seq<char>> {
        match self {
            JsonTree::Text(s) => Some(s),
            _ => None,
        }
    }

    /// The boolean, where the document is one.
    pub open spec fn boolean(self) -> Option<bool> {
        match self {
            JsonTree::Bool(b) => Some(b),
            _ => None,
        }
    }

    /// The items, where the document is an array.
    pub open spec fn items(self) -> Option<Seq<JsonTree>> {
        match self {
            JsonTree::Array(items) => Some(items),
            _ => None,
        }
    }

    /// The value as a `u64`, where the document is a number that has one.
    pub open spec fn unsigned(self) -> Option<u64> {
        match self {
            JsonTree::Number(n) => n.unsigned,
            _ => None,
        }
    }

    /// The bits of the value in double precision, where the document is a
    /// number that has one.
    pub open spec fn double_bits(self) -> Option<u64> {
        match self {
            JsonTree::Number(n) => n.double_bits,
            _ => None,
        }
    }

    /// The text of the field of that name.
    pub open spec fn text_field(self, name: Seq<char>) -> Option<Seq<char>> {
        match self.get(name) {
            Some(v) => v.text(),
            None => None,
        }
    }

    /// The items of the field of that name.
    pub open spec fn items_field(self, name: Seq<char>) -> Option<Seq<JsonTree>> {
        match self.get(name) {
            Some(v) => v.items(),
            None => None,
        }
    }
}

/// The view of an optional text.
pub open spec fn text_view(o: Option<&str>) -> Option<Seq<char>> {
    match o {
        Some(s) => Some(s@),
        None => None,
    }
}

/// The view of an optional document.
pub open spec fn tree_view(o: Option<&Json>) -> Option<JsonTree> {
    match o {
        Some(j) => Some(j@),
        None => None,
    }
}

/// The view of an optional list of documents.
pub open spec fn items_view(o: Option<&Vec<Json>>) -> Option<Seq<JsonTree>> {
    match o {
        Some(v) => Some(trees(v@)),
        None => None,
    }
}

impl Json {
    /// The first field of that name, where the document is an object that has one.
    pub fn get(&self, name: &str) -> (r: Option<&Json>)
        ensures
            tree_view(r) == self@.get(name@),
    {
        match self {
            Json::Object(fields) => {
                let ghost all = field_trees(fields@);
                proof {
                    lemma_object_view(*fields);
                    assert(all.skip(0) =~= all);
                }
                let mut i: usize = 0;
                while i < fields.len()
                    invariant
                        i <= fields@.len(),
                        all == field_trees(fields@),
                        self@ == JsonTree::Object(all),
                        first_field(all, name@) == first_field(all.skip(i as int), name@),
                    decreases fields@.len() - i,
                {
                    proof {
                        assert(all.skip(i as int)[0] == all[i as int]);
                        assert(all.skip(i as int).drop_first() =~= all.skip(i + 1));
                    }
                    if text::same_text(fields[i].0.as_str(), name) {
                        return Some(&fields[i].1);
                    }
                    i += 1;
                }
                assert(all.skip(i as int).len() == 0);
                None
            },
            _ => None,
        }
    }

    /// The text, where the document is one.
    pub fn as_str(&self) -> (r: Option<&str>)
        ensures
            text_view(r) == self@.text(),
    {
        match self {
            Json::Text(s) => Some(s.as_str()),
            _ => None,
        }
    }

    /// The boolean, where the document is one.
    pub fn as_bool(&self) -> (r: Option<bool>)
        ensures
            r == self@.boolean(),
    {
        match self {
            Json::Bool(b) => Some(*b),
            _ => None,
        }
    }

    /// The items, where the document is an array.
    pub fn as_array(&self) -> (r: Option<&Vec<Json>>)
        ensures
            items_view(r) == self@.items(),
    {
        match self {
            Json::Array(items) => {
                proof {
                    lemma_array_view(*items);
                }
                Some(items)
            },
            _ => None,
        }
    }

    /// The value as a `u64`, where the document is a number that has one.
    pub fn as_u64(&self) -> (r: Option<u64>)
        ensures
            r == self@.unsigned(),
    {
        match self {
            Json::Number(n) => n.unsigned,
            _ => None,
        }
    }

    /// The bits of the value in double precision, where the document is a
    /// number that has one.
    pub fn as_double_bits(&self) -> (r: Option<u64>)
        ensures
            r == self@.double_bits(),
    {
        match self {
            Json::Number(n) => n.double_bits,
            _ => None,
        }
    }

    /// The text of the field of that name.
    pub fn text_field(&self, name: &str) -> (r: Option<&str>)
        ensures
            text_view(r) == self@.text_field(name@),
    {
        match self.get(name) {
            Some(v) => v.as_str(),
            None => None,
        }
    }

    /// The items of the field of that name.
    pub fn items_field(&self, name: &str) -> (r: Option<&Vec<Json>>)
        ensures
            items_view(r) == self@.items_field(name@),
    {
        match self.get(name) {
            Some(v) => v.as_array(),
            None => None,
        }
    }

    /// A text document.
    pub fn text(s: &str) -> (r: Json)
        ensures
            r@ == JsonTree::Text(s@),
    {
        Json::Text(text::owned(s))
    }

    /// An array of those items.
    pub fn array(items: Vec<Json>) -> (r: Json)
        ensures
            r@ == JsonTree::Array(trees(items@)),
    {
        proof {
            lemma_array_view(items);
        }
        Json::Array(items)
    }

    /// An object with those fields.
    pub fn object(fields: Vec<(String, Json)>) -> (r: Json)
        ensures
            r@ == JsonTree::Object(field_trees(fields@)),
    {
        proof {
            lemma_object_view(fields);
        }
        Json::Object(fields)
    }
}

/// A whole number as a JSON number.
pub open spec fn unsigned_tree(n: u64) -> JsonTree {
    JsonTree::Number(
        JsonNumber { unsigned: Some(n), double_bits: Some(ieee::unsigned_double(n)) },
    )
}

/// A number in single precision as a JSON number; null where it is not finite.
pub open spec fn single_tree(s: Single) -> JsonTree {
    match ieee::to_double(s) {
        Some(bits) => JsonTree::Number(JsonNumber { unsigned: None, double_bits: Some(bits) }),
        None => JsonTree::Null,
    }
}

/// A finite number in single precision is read back from its JSON number.
pub proof fn single_is_read_back(s: Single)
    requires
        s.finite(),
    ensures
        single_tree(s).double_bits() matches Some(bits) && ieee::to_single(bits) == s,
{
    ieee::double_round_trip(s);
}

/// A vector as a JSON array.
pub open spec fn vector_tree(v: Seq<Single>) -> JsonTree {
    JsonTree::Array(Seq::new(v.len(), |i: int| single_tree(v[i])))
}

/// A whole number as a JSON number.
pub fn unsigned(n: u64) -> (r: Json)
    ensures
        r@ == unsigned_tree(n),
{
    Json::Number(JsonNumber { unsigned: Some(n), double_bits: Some(ieee::double_of(n)) })
}

/// A number in single precision as a JSON number; null where it is not finite.
pub fn single(s: Single) -> (r: Json)
    ensures
        r@ == single_tree(s),
{
    match ieee::widen(s) {
        Some(bits) => Json::Number(JsonNumber { unsigned: None, double_bits: Some(bits) }),
        None => Json::Null,
    }
}

/// A vector as a JSON array.
pub fn vector(v: &[Single]) -> (r: Json)
    ensures
        r@ == vector_tree(v@),
{
    let mut items: Vec<Json> = Vec::new();
    let ghost all = Seq::new(v@.len(), |i: int| single_tree(v@[i]));
    let mut i: usize = 0;
    assert(trees(items@) =~= all.take(0));
    while i < v.len()
        invariant
            i <= v@.len(),
            all == Seq::new(v@.len(), |i: int| single_tree(v@[i])),
            trees(items@) == all.take(i as int),
        decreases v@.len() - i,
    {
        push_item(&mut items, single(v[i]));
        assert(all.take(i as int).push(all[i as int]) =~= all.take(i + 1));
        i += 1;
    }
    assert(all.take(i as int) =~= all);
    Json::array(items)
}

/// Appends a field to the fields of an object.
pub fn push_field(fields: &mut Vec<(String, Json)>, name: &str, value: Json)
    ensures
        field_trees(final(fields)@) == field_trees(old(fields)@).push((name@, value@)),
{
    let ghost before = fields@;
    fields.push((text::owned(name), value));
    assert(field_trees(fields@) =~= field_trees(before).push((name@, value@)));
}

/// The fields with the value of that name set: in place of the value that the
/// first such field had, or in a new field at the end.
pub open spec fn with_field(
    fields: Seq<(Seq<char>, JsonTree)>,
    name: Seq<char>,
    value: JsonTree,
) -> Seq<(Seq<char>, JsonTree)>
    decreases fields.len(),
{
    if fields.len() == 0 {
        seq![(name, value)]
    } else if fields[0].0 == name {
        fields.update(0, (name, value))
    } else {
        seq![fields[0]] + with_field(fields.drop_first(), name, value)
    }
}

/// A field that was set has the value that it was set to, and the others keep
/// theirs.
pub proof fn set_field_is_read(
    fields: Seq<(Seq<char>, JsonTree)>,
    name: Seq<char>,
    value: JsonTree,
    other: Seq<char>,
)
    ensures
        first_field(with_field(fields, name, value), name) == Some(value),
        other != name ==> first_field(with_field(fields, name, value), other) == first_field(
            fields,
            other,
        ),
    decreases fields.len(),
{
    let w = with_field(fields, name, value);
    if fields.len() == 0 {
        assert(w[0] == (name, value));
        assert(w.drop_first() =~= fields);
    } else if fields[0].0 == name {
        assert(w.drop_first() =~= fields.drop_first());
    } else {
        set_field_is_read(fields.drop_first(), name, value, other);
        assert(w.drop_first() =~= with_field(fields.drop_first(), name, value));
        assert(w[0] == fields[0]);
    }
}

/// Setting the field behind fields of other names.
proof fn lemma_with_field_at(
    fields: Seq<(Seq<char>, JsonTree)>,
    name: Seq<char>,
    value: JsonTree,
    n: nat,
)
    requires
        n <= fields.len(),
        forall|j: int| 0 <= j < n ==> (#[trigger] fields[j]).0 != name,
        n < fields.len() ==> fields[n as int].0 == name,
    ensures
        n < fields.len() ==> with_field(fields, name, value) == fields.update(
            n as int,
            (name, value),
        ),
        n == fields.len() ==> with_field(fields, name, value) == fields.push((name, value)),
    decreases n,
{
    if n == 0 {
        if fields.len() == 0 {
            assert(with_field(fields, name, value) =~= fields.push((name, value)));
        }
    } else {
        let rest = fields.drop_first();
        assert forall|j: int| 0 <= j < n - 1 implies (#[trigger] rest[j]).0 != name by {
            assert(rest[j] == fields[j + 1]);
        }
        lemma_with_field_at(rest, name, value, (n - 1) as nat);
        assert(fields[0].0 != name);
        if n < fields.len() {
            assert(with_field(fields, name, value) =~= fields.update(n as int, (name, value)));
        } else {
            assert(with_field(fields, name, value) =~= fields.push((name, value)));
        }
    }
}

/// Sets a field of an object.
pub fn put_field(fields: &mut Vec<(String, Json)>, name: &str, value: Json)
    ensures
        field_trees(final(fields)@) == with_field(field_trees(old(fields)@), name@, value@),
{
    let ghost before = fields@;
    let ghost all = field_trees(before);
    let mut i: usize = 0;
    while i < fields.len() && !text::same_text(fields[i].0.as_str(), name)
        invariant
            i <= fields@.len(),
            fields@ == before,
            all == field_trees(before),
            forall|j: int| 0 <= j < i ==> (#[trigger] all[j]).0 != name@,
        decreases fields@.len() - i,
    {
        assert(all[i as int].0 == fields@[i as int].0@);
        i += 1;
    }
    proof {
        if i < before.len() {
            assert(all[i as int].0 == name@);
        }
        lemma_with_field_at(all, name@, value@, i as nat);
    }
    if i < fields.len() {
        fields.set(i, (text::owned(name), value));
        assert(field_trees(fields@) =~= all.update(i as int, (name@, value@)));
    } else {
        push_field(fields, name, value);
    }
}

/// Appends an item to the items of an array.
pub fn push_item(items: &mut Vec<Json>, value: Json)
    ensures
        trees(final(items)@) == trees(old(items)@).push(value@),
{
    let ghost before = items@;
    items.push(value);
    assert(trees(items@) =~= trees(before).push(value@));
}

/// An object with one field.
pub fn object1(name: &str, value: Json) -> (r: Json)
    ensures
        r@ == JsonTree::Object(seq![(name@, value@)]),
{
    let mut fields: Vec<(String, Json)> = Vec::new();
    assert(field_trees(fields@) =~= seq![]);
    push_field(&mut fields, name, value);
    Json::object(fields)
}

/// An object with two fields.
pub fn object2(n1: &str, v1: Json, n2: &str, v2: Json) -> (r: Json)
    ensures
        r@ == JsonTree::Object(seq![(n1@, v1@), (n2@, v2@)]),
{
    let mut fields: Vec<(String, Json)> = Vec::new();
    assert(field_trees(fields@) =~= seq![]);
    push_field(&mut fields, n1, v1);
    push_field(&mut fields, n2, v2);
    assert(field_trees(fields@) =~= seq![(n1@, v1@), (n2@, v2@)]);
    Json::object(fields)
}

/// An object with three fields.
pub fn object3(n1: &str, v1: Json, n2: &str, v2: Json, n3: &str, v3: Json) -> (r: Json)
    ensures
        r@ == JsonTree::Object(seq![(n1@, v1@), (n2@, v2@), (n3@, v3@)]),
{
    let mut fields: Vec<(String, Json)> = Vec::new();
    assert(field_trees(fields@) =~= seq![]);
    push_field(&mut fields, n1, v1);
    push_field(&mut fields, n2, v2);
    push_field(&mut fields, n3, v3);
    assert(field_trees(fields@) =~= seq![(n1@, v1@), (n2@, v2@), (n3@, v3@)]);
    Json::object(fields)
}

/// An object with four fields.
pub fn object4(
    n1: &str,
    v1: Json,
    n2: &str,
    v2: Json,
    n3: &str,
    v3: Json,
    n4: &str,
    v4: Json,
) -> (r: Json)
    ensures
        r@ == JsonTree::Object(seq![(n1@, v1@), (n2@, v2@), (n3@, v3@), (n4@, v4@)]),
{
    let mut fields: Vec<(String, Json)> = Vec::new();
    assert(field_trees(fields@) =~= seq![]);
    push_field(&mut fields, n1, v1);
    push_field(&mut fields, n2, v2);
    push_field(&mut fields, n3, v3);
    push_field(&mut fields, n4, v4);
    assert(field_trees(fields@) =~= seq![(n1@, v1@), (n2@, v2@), (n3@, v3@), (n4@, v4@)]);
    Json::object(fields)
}

/// An array with one item.
pub fn array1(v: Json) -> (r: Json)
    ensures
        r@ == JsonTree::Array(seq![v@]),
{
    let mut items: Vec<Json> = Vec::new();
    assert(trees(items@) =~= seq![]);
    push_item(&mut items, v);
    Json::array(items)
}

/// An array with two items.
pub fn array2(v1: Json, v2: Json) -> (r: Json)
    ensures
        r@ == JsonTree::Array(seq![v1@, v2@]),
{
    let mut items: Vec<Json> = Vec::new();
    assert(trees(items@) =~= seq![]);
    push_item(&mut items, v1);
    push_item(&mut items, v2);
    assert(trees(items@) =~= seq![v1@, v2@]);
    Json::array(items)
}

// ---------------------------------------------------------------------
// Parsing
// ---------------------------------------------------------------------

/// A parsed document of `serde_json`.
#[verifier::external_type_specification]
#[verifier::external_body]
pub struct ExValue(serde_json::Value);

/// What a value of `serde_json` holds.
pub uninterp spec fn value_tree(v: serde_json::Value) -> JsonTree;

/// What `serde_json` makes of a byte string: the document, or the message of
/// the error.
pub uninterp spec fn json_parse(bytes: Seq<u8>) -> Result<JsonTree, Seq<char>>;

/// `serde_json::from_slice`, into a `serde_json::Value`: the document that the
/// bytes spell, or the message of the parse error. Both depend on the bytes alone.
#[verifier::external_body]
fn value_from_slice(bytes: &[u8]) -> (r: Result<serde_json::Value, String>)
    ensures
        (match r {
            Ok(v) => Ok(value_tree(v)),
            Err(e) => Err(e@),
        }) == json_parse(bytes@),
{
    serde_json::from_slice(bytes).map_err(|e| e.to_string())
}

/// One level of a `serde_json::Value`.
enum Opened<'a> {
    Null,
    Bool(bool),
    Number(JsonNumber),
    Text(&'a String),
    Array(&'a Vec<serde_json::Value>),
    Object(Vec<(&'a String, &'a serde_json::Value)>),
}

/// What one opened level says of the whole.
spec fn opened_tree(o: Opened) -> JsonTree {
    match o {
        Opened::Null => JsonTree::Null,
        Opened::Bool(b) => JsonTree::Bool(b),
        Opened::Number(n) => JsonTree::Number(n),
        Opened::Text(s) => JsonTree::Text(s@),
        Opened::Array(items) => JsonTree::Array(
            Seq::new(items@.len(), |i: int| value_tree(items@[i])),
        ),
        Opened::Object(fields) => JsonTree::Object(
            Seq::new(fields@.len(), |i: int| (fields@[i].0@, value_tree(*fields@[i].1))),
        ),
    }
}

/// The variants of `serde_json::Value`, told apart: a number by
/// `Number::as_u64` and by the bits of `Number::as_f64`, an object by the
/// entries that `Map::iter` yields, in that order.
#[verifier::external_body]
fn open_value<'a>(v: &'a serde_json::Value) -> (r: Opened<'a>)
    ensures
        opened_tree(r) == value_tree(*v),
{
    match v {
        serde_json::Value::Null => Opened::Null,
        serde_json::Value::Bool(b) => Opened::Bool(*b),
        serde_json::Value::Number(n) => Opened::Number(JsonNumber {
            unsigned: n.as_u64(),
            double_bits: n.as_f64().map(|d| d.to_bits()),
        }),
        serde_json::Value::String(s) => Opened::Text(s),
        serde_json::Value::Array(items) => Opened::Array(items),
        serde_json::Value::Object(fields) => Opened::Object(fields.iter().collect()),
    }
}

/// The document that a value of `serde_json` holds.
fn from_value(v: &serde_json::Value) -> (r: Json)
    ensures
        r@ == value_tree(*v),
    decreases value_tree(*v),
{
    match open_value(v) {
        Opened::Null => Json::Null,
        Opened::Bool(b) => Json::Bool(b),
        Opened::Number(n) => Json::Number(n),
        Opened::Text(s) => Json::Text(s.clone()),
        Opened::Array(items) => {
            let mut out: Vec<Json> = Vec::new();
            let ghost all = Seq::new(items@.len(), |i: int| value_tree(items@[i]));
            let mut i: usize = 0;
            while i < items.len()
                invariant
                    i <= items@.len(),
                    value_tree(*v) == JsonTree::Array(all),
                    all == Seq::new(items@.len(), |i: int| value_tree(items@[i])),
                    trees(out@) == all.take(i as int),
                decreases items@.len() - i,
            {
                assert(all[i as int] == value_tree(items@[i as int]));
                assert(decreases_to!(value_tree(*v) => value_tree(*v)->Array_0[i as int]));
                let item = from_value(&items[i]);
                push_item(&mut out, item);
                assert(all.take(i as int).push(all[i as int]) =~= all.take(i + 1));
                i += 1;
            }
            assert(all.take(i as int) =~= all);
            Json::array(out)
        },
        Opened::Object(fields) => {
            let mut out: Vec<(String, Json)> = Vec::new();
            let ghost all = Seq::new(
                fields@.len(),
                |i: int| (fields@[i].0@, value_tree(*fields@[i].1)),
            );
            let mut i: usize = 0;
            while i < fields.len()
                invariant
                    i <= fields@.len(),
                    value_tree(*v) == JsonTree::Object(all),
                    all == Seq::new(
                        fields@.len(),
                        |i: int| (fields@[i].0@, value_tree(*fields@[i].1)),
                    ),
                    field_trees(out@) == all.take(i as int),
                decreases fields@.len() - i,
            {
                assert(all[i as int].1 == value_tree(*fields@[i as int].1));
                assert(decreases_to!(value_tree(*v) => value_tree(*v)->Object_0[i as int].1));
                let value = from_value(fields[i].1);
                push_field(&mut out, fields[i].0.as_str(), value);
                assert(all.take(i as int).push(all[i as int]) =~= all.take(i + 1));
                i += 1;
            }
            assert(all.take(i as int) =~= all);
            Json::object(out)
        },
    }
}

/// Parses a byte string: the document that it spells, or the message of the
/// parse error.
pub fn parse_json(bytes: &[u8]) -> (r: Result<Json, String>)
    ensures
        (match r {
            Ok(j) => Ok(j@),
            Err(e) => Err(e@),
        }) == json_parse(bytes@),
{
    match value_from_slice(bytes) {
        Ok(v) => Ok(from_value(&v)),
        Err(e) => Err(e),
    }
}

// ---------------------------------------------------------------------
// Laws
// ---------------------------------------------------------------------

/// The value of a name is that of the first field that has it.
pub proof fn first_field_counts(fields: Seq<(Seq<char>, JsonTree)>, n: int, name: Seq<char>)
    requires
        0 <= n < fields.len(),
        fields[n].0 == name,
        forall|j: int| 0 <= j < n ==> (#[trigger] fields[j]).0 != name,
    ensures
        JsonTree::Object(fields).get(name) == Some(fields[n].1),
    decreases n,
{
    if n > 0 {
        let rest = fields.drop_first();
        assert forall|j: int| 0 <= j < n - 1 implies (#[trigger] rest[j]).0 != name by {
            assert(rest[j] == fields[j + 1]);
        }
        assert(rest[n - 1] == fields[n]);
        assert(fields[0].0 != name);
        first_field_counts(rest, n - 1, name);
    }
}

/// A name that no field has gives nothing.
pub proof fn missing_field_gives_nothing(fields: Seq<(Seq<char>, JsonTree)>, name: Seq<char>)
    requires
        forall|j: int| 0 <= j < fields.len() ==> (#[trigger] fields[j]).0 != name,
    ensures
        JsonTree::Object(fields).get(name) is None,
    decreases fields.len(),
{
    if fields.len() > 0 {
        let rest = fields.drop_first();
        assert forall|j: int| 0 <= j < rest.len() implies (#[trigger] rest[j]).0 != name by {
            assert(rest[j] == fields[j + 1]);
        }
        assert(fields[0].0 != name);
        missing_field_gives_nothing(rest, name);
    }
}

/// Only texts, booleans, arrays and objects are read as such, and each as what it
/// holds.
pub proof fn documents_are_read_as_they_are(
    s: Seq<char>,
    b: bool,
    items: Seq<JsonTree>,
    fields: Seq<(Seq<char>, JsonTree)>,
    n: JsonNumber,
)
    ensures
        JsonTree::Text(s).text() == Some(s),
        JsonTree::Bool(b).boolean() == Some(b),
        JsonTree::Array(items).items() == Some(items),
        JsonTree::Number(n).unsigned() == n.unsigned,
        JsonTree::Number(n).double_bits() == n.double_bits,
        forall|t: JsonTree|
            {
                &&& (#[trigger] t.text()) is Some ==> t == JsonTree::Text(t.text()->0)
                &&& t.boolean() is Some ==> t == JsonTree::Bool(t.boolean()->0)
                &&& t.items() is Some ==> t == JsonTree::Array(t.items()->0)
            },
        JsonTree::Array(items).get(s) is None,
        JsonTree::Text(s).get(s) is None,
{
}

/// A whole number is sent as itself, and a vector item by item: each finite number
/// is read back as it was, and one that is not finite is null.
pub proof fn numbers_are_sent_as_they_are(n: u64, v: Seq<Single>)
    ensures
        unsigned_tree(n).unsigned() == Some(n),
        unsigned_tree(n).double_bits() == Some(ieee::unsigned_double(n)),
        forall|i: int|
            0 <= i < v.len() && !(#[trigger] v[i]).finite() ==> vector_tree(v).items()->0[i]
                == JsonTree::Null,
        vector_tree(v).items() matches Some(items) && items.len() == v.len() && forall|i: int|
            0 <= i < v.len() && v[i].finite() ==> ((#[trigger] items[i]).double_bits() matches Some(
                bits,
            ) && ieee::to_single(bits) == v[i]),
{
    let items = vector_tree(v).items()->0;
    assert forall|i: int| 0 <= i < v.len() && v[i].finite() implies ((
    #[trigger] items[i]).double_bits() matches Some(bits) && ieee::to_single(bits) == v[i]) by {
        single_is_read_back(v[i]);
    }
}

/// What is stated of a document is stated of the whole of it.
pub proof fn documents_are_seen_whole(
    items: Vec<Json>,
    fields: Vec<(String, Json)>,
    s: String,
    b: bool,
    n: JsonNumber,
    i: int,
)
    ensures
        Json::Null@ == JsonTree::Null,
        Json::Bool(b)@ == JsonTree::Bool(b),
        Json::Number(n)@ == JsonTree::Number(n),
        Json::Text(s)@ == JsonTree::Text(s@),
        Json::Array(items)@ matches JsonTree::Array(t) && t.len() == items@.len() && (0 <= i
            < t.len() ==> t[i] == items@[i]@),
        Json::Object(fields)@ matches JsonTree::Object(t) && t.len() == fields@.len() && (0 <= i
            < t.len() ==> t[i] == (fields@[i].0@, fields@[i].1@)),
        trees(items@).len() == items@.len(),
        0 <= i < items@.len() ==> trees(items@)[i] == items@[i]@,
{
    lemma_array_view(items);
    lemma_object_view(fields);
}

/// What is stated of something that was read is stated of the whole of it.
pub proof fn readings_are_seen_whole(s: &str, j: &Json, items: &Vec<Json>)
    ensures
        text_view(Some(s)) == Some(s@),
        text_view(None) is None,
        tree_view(Some(j)) == Some(j@),
        tree_view(None) is None,
        items_view(Some(items)) == Some(trees(items@)),
        items_view(None) is None,
{
}

} // verus!
