//! JSON values: what the service sends and is sent.

use vstd::prelude::*;

use crate::text::{same_text, signed_decimal};

verus! {

/// What a JSON value says.
#[verifier::ext_equal]
pub enum JsonTree {
    Null,
    Bool(bool),
    /// A number, by the text that it is written with.
    Number(Seq<char>),
    Text(Seq<char>),
    List(Seq<JsonTree>),
    Object(Map<Seq<char>, JsonTree>),
}

/// A JSON value.
#[derive(Debug, PartialEq)]
pub enum Json {
    Null,
    Bool(bool),
    Number(serde_json::Number),
    Text(String),
    List(Vec<Json>),
    /// Keys and values. Of two values for one key the later one counts.
    Object(Vec<(String, Json)>),
}

/// A number as the JSON library holds it.
#[verifier::external_type_specification]
#[verifier::external_body]
pub struct ExNumber(serde_json::Number);

/// A value as the JSON library holds it.
#[verifier::external_type_specification]
#[verifier::external_body]
pub struct ExValue(serde_json::Value);

/// An object as the JSON library holds it.
#[verifier::external_type_specification]
#[verifier::external_body]
#[verifier::reject_recursive_types(K)]
#[verifier::reject_recursive_types(V)]
pub struct ExObject<K, V>(serde_json::Map<K, V>);

/// The text that the JSON library writes a number with.
pub uninterp spec fn number_text(n: serde_json::Number) -> Seq<char>;

/// What a value of the JSON library holds.
pub uninterp spec fn json_of(v: serde_json::Value) -> JsonTree;

/// What an object of the JSON library holds.
pub uninterp spec fn object_of(m: serde_json::Map<String, serde_json::Value>) -> Map<
    Seq<char>,
    JsonTree,
>;

/// What `serde_json::from_str` makes of a text: the value, or the text of the
/// error.
pub uninterp spec fn parsed(text: Seq<char>) -> Result<JsonTree, Seq<char>>;

/// The bytes that `serde_json::to_vec` writes for a value.
pub uninterp spec fn json_bytes(tree: JsonTree) -> Seq<u8>;

/// One layer of a value: what it is, with its parts still as the JSON library
/// holds them.
pub enum Layer {
    Null,
    Bool(bool),
    Number(serde_json::Number),
    Text(String),
    List(Vec<serde_json::Value>),
    Object(serde_json::Map<String, serde_json::Value>),
}

impl Layer {
    /// What the value that this is a layer of holds.
    pub open spec fn tree(&self) -> JsonTree {
        match self {
            Layer::Null => JsonTree::Null,
            Layer::Bool(b) => JsonTree::Bool(*b),
            Layer::Number(n) => JsonTree::Number(number_text(*n)),
            Layer::Text(s) => JsonTree::Text(s@),
            Layer::List(items) => JsonTree::List(
                items@.map_values(|v: serde_json::Value| json_of(v)),
            ),
            Layer::Object(m) => JsonTree::Object(object_of(*m)),
        }
    }
}

impl Json {
    /// What the value says.
    pub open spec fn tree(&self) -> JsonTree
        decreases self,
    {
        match self {
            Json::Null => JsonTree::Null,
            Json::Bool(b) => JsonTree::Bool(*b),
            Json::Number(n) => JsonTree::Number(number_text(*n)),
            Json::Text(s) => JsonTree::Text(s@),
            Json::List(items) => JsonTree::List(trees(items@)),
            Json::Object(fields) => JsonTree::Object(object_tree(fields@)),
        }
    }
}

/// What each of some values says.
pub open spec fn trees(items: Seq<Json>) -> Seq<JsonTree>
    decreases items,
{
    Seq::new(
        items.len(),
        |i: int|
            if 0 <= i < items.len() {
                items[i].tree()
            } else {
                JsonTree::Null
            },
    )
}

/// What an object without fields says.
pub open spec fn no_fields() -> Map<Seq<char>, JsonTree> {
    Map::empty()
}

/// What an object of the given fields says.
pub open spec fn object_tree(fields: Seq<(String, Json)>) -> Map<Seq<char>, JsonTree>
    decreases fields,
{
    if fields.len() == 0 {
        no_fields()
    } else {
        object_tree(fields.drop_last()).insert(fields.last().0@, fields.last().1.tree())
    }
}

impl View for Json {
    type V = JsonTree;

    open spec fn view(&self) -> JsonTree {
        self.tree()
    }
}

/// `serde_json::Value` is an enum of six variants; this gives the variant and
/// its contents.
#[verifier::external_body]
fn open_value(v: serde_json::Value) -> (layer: Layer)
    ensures
        layer.tree() == json_of(v),
{
    match v {
        serde_json::Value::Null => Layer::Null,
        serde_json::Value::Bool(b) => Layer::Bool(b),
        serde_json::Value::Number(n) => Layer::Number(n),
        serde_json::Value::String(s) => Layer::Text(s),
        serde_json::Value::Array(items) => Layer::List(items),
        serde_json::Value::Object(m) => Layer::Object(m),
    }
}

/// Makes a `serde_json::Value` of a variant and its contents.
#[verifier::external_body]
fn close_value(layer: Layer) -> (v: serde_json::Value)
    ensures
        json_of(v) == layer.tree(),
{
    match layer {
        Layer::Null => serde_json::Value::Null,
        Layer::Bool(b) => serde_json::Value::Bool(b),
        Layer::Number(n) => serde_json::Value::Number(n),
        Layer::Text(s) => serde_json::Value::String(s),
        Layer::List(items) => serde_json::Value::Array(items),
        Layer::Object(m) => serde_json::Value::Object(m),
    }
}

/// `serde_json::Map::new` makes an object without keys.
#[verifier::external_body]
fn empty_object() -> (m: serde_json::Map<String, serde_json::Value>)
    ensures
        object_of(m) == no_fields(),
{
    serde_json::Map::new()
}

/// `serde_json::Map::insert` gives a key a value, in place of the one it had.
#[verifier::external_body]
fn set_key(m: &mut serde_json::Map<String, serde_json::Value>, key: String, v: serde_json::Value)
    ensures
        object_of(*final(m)) == object_of(*old(m)).insert(key@, json_of(v)),
{
    m.insert(key, v);
}

/// `serde_json::Map::into_iter` gives each key once, with its value.
#[verifier::external_body]
fn object_entries(m: serde_json::Map<String, serde_json::Value>) -> (entries: Vec<
    (String, serde_json::Value),
>)
    ensures
        forall|i: int, j: int|
            0 <= i < j < entries@.len() ==> (#[trigger] entries@[i]).0@ != (
            #[trigger] entries@[j]).0@,
        forall|i: int|
            0 <= i < entries@.len() ==> object_of(m).contains_key((#[trigger] entries@[i]).0@)
                && object_of(m)[entries@[i].0@] == json_of(entries@[i].1),
        forall|key: Seq<char>| #[trigger]
            object_of(m).contains_key(key) ==> exists|i: int|
                0 <= i < entries@.len() && (#[trigger] entries@[i]).0@ == key,
{
    m.into_iter().collect()
}

/// `serde_json::from_str` reads one JSON value; where the text is not one,
/// this gives the text of its error.
#[verifier::external_body]
fn read_value(text: &str) -> (value: Result<serde_json::Value, String>)
    ensures
        value matches Ok(v) ==> parsed(text@) is Ok && parsed(text@)->Ok_0 == json_of(v),
        value matches Err(e) ==> parsed(text@) is Err && parsed(text@)->Err_0 == e@,
{
    match serde_json::from_str::<serde_json::Value>(text) {
        Ok(v) => Ok(v),
        Err(e) => Err(e.to_string()),
    }
}

/// `serde_json::to_vec` writes a value without white space, the keys of each
/// object in the order of their characters. It fails for no value of type
/// `serde_json::Value`.
#[verifier::external_body]
fn write_value(v: &serde_json::Value) -> (bytes: Vec<u8>)
    ensures
        bytes@ == json_bytes(json_of(*v)),
{
    serde_json::to_vec(v).unwrap()
}

/// `serde_json::Number::from` an integer is written in decimal.
#[verifier::external_body]
fn integer(n: i64) -> (number: serde_json::Number)
    ensures
        number_text(number) == signed_decimal(n as int),
{
    serde_json::Number::from(n)
}

/// `serde_json::Number::clone` gives the same number.
pub assume_specification[ <serde_json::Number as Clone>::clone ](
    n: &serde_json::Number,
) -> (copy: serde_json::Number)
    ensures
        copy == *n,
;

/// What a number says; nothing where there is none.
pub open spec fn number_tree(n: Option<serde_json::Number>) -> JsonTree {
    match n {
        Some(n) => JsonTree::Number(number_text(n)),
        None => JsonTree::Null,
    }
}

/// A number; nothing where there is none.
pub fn json_number(n: &Option<serde_json::Number>) -> (j: Json)
    ensures
        j@ == number_tree(*n),
{
    match n {
        Some(n) => Json::Number(n.clone()),
        None => Json::Null,
    }
}

/// The value of the field `key`, where `tree` is an object that has it.
pub open spec fn field(tree: JsonTree, key: Seq<char>) -> Option<JsonTree> {
    match tree {
        JsonTree::Object(m) => if m.contains_key(key) {
            Some(m[key])
        } else {
            None
        },
        _ => None,
    }
}

/// The text in the field `key`, where there is such a field and it holds one.
pub open spec fn text_field(tree: JsonTree, key: Seq<char>) -> Option<Seq<char>> {
    match field(tree, key) {
        Some(JsonTree::Text(s)) => Some(s),
        _ => None,
    }
}

/// The text in the field `key`, or nothing.
pub open spec fn text_or_empty(tree: JsonTree, key: Seq<char>) -> Seq<char> {
    match text_field(tree, key) {
        Some(s) => s,
        None => Seq::empty(),
    }
}

/// The truth value in the field `key`, where it holds one.
pub open spec fn bool_field(tree: JsonTree, key: Seq<char>) -> Option<bool> {
    match field(tree, key) {
        Some(JsonTree::Bool(b)) => Some(b),
        _ => None,
    }
}

/// The items of a list; none where `tree` is no list.
pub open spec fn items_of(tree: JsonTree) -> Seq<JsonTree> {
    match tree {
        JsonTree::List(items) => items,
        _ => Seq::empty(),
    }
}

proof fn lemma_object_tree_last(fields: Seq<(String, Json)>, key: Seq<char>, at: int)
    requires
        -1 <= at < fields.len(),
        at >= 0 ==> fields[at].0@ == key,
        forall|j: int| at < j < fields.len() ==> (#[trigger] fields[j]).0@ != key,
    ensures
        object_tree(fields).contains_key(key) <==> at >= 0,
        at >= 0 ==> object_tree(fields)[key] == fields[at].1@,
    decreases fields.len(),
{
    if fields.len() > 0 && at < fields.len() - 1 {
        let rest = fields.drop_last();
        assert(fields.last().0@ != key);
        assert forall|j: int| at < j < rest.len() implies (#[trigger] rest[j]).0@ != key by {
            assert(rest[j] == fields[j]);
        }
        lemma_object_tree_last(rest, key, at);
    }
}

/// The field `key` of an object.
pub fn get<'a>(v: &'a Json, key: &str) -> (value: Option<&'a Json>)
    ensures
        value is Some <==> field(v@, key@) is Some,
        value matches Some(j) ==> field(v@, key@) == Some(j@),
{
    match v {
        Json::Object(fields) => {
            let mut i: usize = fields.len();
            while i > 0
                invariant
                    i <= fields@.len(),
                    v == Json::Object(*fields),
                    forall|j: int| i <= j < fields@.len() ==> (#[trigger] fields@[j]).0@ != key@,
                decreases i,
            {
                i = i - 1;
                if same_text(fields[i].0.as_str(), key) {
                    proof {
                        lemma_object_tree_last(fields@, key@, i as int);
                    }
                    return Some(&fields[i].1);
                }
            }
            proof {
                lemma_object_tree_last(fields@, key@, -1);
            }
            None
        },
        _ => None,
    }
}

/// The text in the field `key` of an object.
pub fn get_str(v: &Json, key: &str) -> (text: Option<String>)
    ensures
        text is Some <==> text_field(v@, key@) is Some,
        text matches Some(s) ==> text_field(v@, key@) == Some(s@),
{
    match get(v, key) {
        Some(Json::Text(s)) => Some(s.clone()),
        _ => None,
    }
}

/// The text in the field `key` of an object, or nothing.
pub fn get_str_or_empty(v: &Json, key: &str) -> (text: String)
    ensures
        text@ == text_or_empty(v@, key@),
{
    match get_str(v, key) {
        Some(s) => s,
        None => String::new(),
    }
}

/// The truth value in the field `key` of an object.
pub fn get_bool(v: &Json, key: &str) -> (truth: Option<bool>)
    ensures
        truth == bool_field(v@, key@),
{
    match get(v, key) {
        Some(Json::Bool(b)) => Some(*b),
        _ => None,
    }
}

/// The items of a list; none where `v` is no list.
pub fn into_items(v: Json) -> (items: Vec<Json>)
    ensures
        trees(items@) == items_of(v@),
{
    match v {
        Json::List(items) => items,
        _ => Vec::new(),
    }
}

proof fn lemma_object_tree_step(fields: Seq<(String, Json)>, i: int)
    requires
        0 <= i < fields.len(),
    ensures
        object_tree(fields.take(i + 1)) == object_tree(fields.take(i)).insert(
            fields[i].0@,
            fields[i].1@,
        ),
{
    assert(fields.take(i + 1).drop_last() =~= fields.take(i));
}

/// The value that the JSON library is handed for `j`.
fn to_value(j: Json) -> (v: serde_json::Value)
    ensures
        json_of(v) == j@,
    decreases j,
{
    match j {
        Json::Null => close_value(Layer::Null),
        Json::Bool(b) => close_value(Layer::Bool(b)),
        Json::Number(n) => close_value(Layer::Number(n)),
        Json::Text(s) => close_value(Layer::Text(s)),
        Json::List(items) => {
            let ghost all = items@;
            let mut values: Vec<serde_json::Value> = Vec::new();
            for item in it: items
                invariant
                    it.seq() == all,
                    j == Json::List(items),
                    all == items@,
                    values@.len() == it.index(),
                    forall|k: int| 0 <= k < it.index() ==> json_of(#[trigger] values@[k]) == all[k]@,
            {
                assert(decreases_to!(j => j->List_0));
                assert(decreases_to!(j->List_0 => j->List_0@));
                assert(decreases_to!(j => items@[it.index() as int]));
                values.push(to_value(item));
            }
            assert(values@.map_values(|v: serde_json::Value| json_of(v)) =~= trees(all));
            close_value(Layer::List(values))
        },
        Json::Object(fields) => {
            let ghost all = fields@;
            let mut m: serde_json::Map<String, serde_json::Value> = empty_object();
            for entry in it: fields
                invariant
                    it.seq() == all,
                    j == Json::Object(fields),
                    all == fields@,
                    object_of(m) == object_tree(all.take(it.index() as int)),
            {
                proof {
                    lemma_object_tree_step(all, it.index() as int);
                    assert(decreases_to!(j => j->Object_0));
                    assert(decreases_to!(j->Object_0 => j->Object_0@));
                    assert(decreases_to!(j => fields@[it.index() as int]));
                }
                let (key, item) = entry;
                set_key(&mut m, key, to_value(item));
            }
            assert(all.take(all.len() as int) =~= all);
            close_value(Layer::Object(m))
        },
    }
}

/// The bytes of a JSON value, as they are sent.
pub fn to_bytes(j: Json) -> (bytes: Vec<u8>)
    ensures
        bytes@ == json_bytes(j@),
{
    write_value(&to_value(j))
}

/// What a value of the JSON library says.
fn from_value(v: serde_json::Value) -> (j: Json)
    ensures
        j@ == json_of(v),
    decreases json_of(v),
{
    let ghost tree = json_of(v);
    match open_value(v) {
        Layer::Null => Json::Null,
        Layer::Bool(b) => Json::Bool(b),
        Layer::Number(n) => Json::Number(n),
        Layer::Text(s) => Json::Text(s),
        Layer::List(values) => {
            let ghost all = values@;
            let mut items: Vec<Json> = Vec::new();
            for value in it: values
                invariant
                    it.seq() == all,
                    tree == json_of(v),
                    tree == JsonTree::List(all.map_values(|v: serde_json::Value| json_of(v))),
                    items@.len() == it.index(),
                    forall|k: int|
                        0 <= k < it.index() ==> (#[trigger] items@[k])@ == json_of(all[k]),
            {
                assert(decreases_to!(tree => tree->List_0[it.index() as int]));
                items.push(from_value(value));
            }
            assert(trees(items@) =~= all.map_values(|v: serde_json::Value| json_of(v)));
            Json::List(items)
        },
        Layer::Object(m) => {
            let ghost whole = object_of(m);
            let entries: Vec<(String, serde_json::Value)> = object_entries(m);
            let ghost all = entries@;
            proof {
                let keys = all.map_values(|e: (String, serde_json::Value)| e.0@);
                assert forall|key: Seq<char>| #[trigger] whole.dom().contains(
                    key,
                ) implies keys.to_set().contains(key) by {
                    assert(whole.contains_key(key));
                    let i = choose|i: int| 0 <= i < all.len() && (#[trigger] all[i]).0@ == key;
                    assert(keys[i] == key);
                }
                vstd::seq_lib::seq_to_set_is_finite(keys);
                vstd::set_lib::lemma_set_subset_finite(keys.to_set(), whole.dom());
            }
            let mut fields: Vec<(String, Json)> = Vec::new();
            for entry in it: entries
                invariant
                    it.seq() == all,
                    tree == json_of(v),
                    tree == JsonTree::Object(whole),
                    whole.dom().finite(),
                    forall|i: int|
                        0 <= i < all.len() ==> whole.contains_key((#[trigger] all[i]).0@)
                            && whole[all[i].0@] == json_of(all[i].1),
                    fields@.len() == it.index(),
                    forall|k: int|
                        0 <= k < it.index() ==> (#[trigger] fields@[k]).0@ == all[k].0@
                            && fields@[k].1@ == json_of(all[k].1),
            {
                let (key, value) = entry;
                assert(all[it.index() as int].0 == key);
                assert(decreases_to!(tree => tree->Object_0));
                assert(decreases_to!(whole => whole[key@]));
                fields.push((key, from_value(value)));
            }
            proof {
                assert forall|key: Seq<char>| #[trigger] whole.contains_key(key) implies exists|
                    i: int,
                | 0 <= i < fields@.len() && (#[trigger] fields@[i]).0@ == key by {
                    let i = choose|i: int| 0 <= i < all.len() && (#[trigger] all[i]).0@ == key;
                    assert(fields@[i].0@ == key);
                }
                lemma_same_object(fields@, whole);
            }
            Json::Object(fields)
        },
    }
}

/// Fields that give each key of `whole` its value, once, and no other key,
/// make up `whole`.
proof fn lemma_same_object(fields: Seq<(String, Json)>, whole: Map<Seq<char>, JsonTree>)
    requires
        forall|i: int, j: int|
            0 <= i < j < fields.len() ==> (#[trigger] fields[i]).0@ != (#[trigger] fields[j]).0@,
        forall|i: int|
            0 <= i < fields.len() ==> whole.contains_key((#[trigger] fields[i]).0@)
                && whole[fields[i].0@] == fields[i].1@,
        forall|key: Seq<char>| #[trigger]
            whole.contains_key(key) ==> exists|i: int|
                0 <= i < fields.len() && (#[trigger] fields[i]).0@ == key,
    ensures
        object_tree(fields) == whole,
{
    assert forall|key: Seq<char>| object_tree(fields).contains_key(key) <==> #[trigger]
        whole.contains_key(key) by {
        if whole.contains_key(key) {
            let i = choose|i: int| 0 <= i < fields.len() && (#[trigger] fields[i]).0@ == key;
            lemma_object_tree_last(fields, key, i);
        } else {
            lemma_object_tree_last(fields, key, -1);
        }
    }
    assert forall|key: Seq<char>| #[trigger] whole.contains_key(key) implies object_tree(
        fields,
    )[key] == whole[key] by {
        let i = choose|i: int| 0 <= i < fields.len() && (#[trigger] fields[i]).0@ == key;
        lemma_object_tree_last(fields, key, i);
    }
    assert(object_tree(fields) =~= whole);
}

/// Reads a JSON value; where `text` is not one, gives the text of the error.
pub fn parse_json(text: &str) -> (value: Result<Json, String>)
    ensures
        value matches Ok(j) ==> parsed(text@) is Ok && parsed(text@)->Ok_0 == j@,
        value matches Err(e) ==> parsed(text@) is Err && parsed(text@)->Err_0 == e@,
{
    match read_value(text) {
        Ok(v) => Ok(from_value(v)),
        Err(e) => Err(e),
    }
}

/// The fields of an object that is being written.
pub struct Fields {
    pub list: Vec<(String, Json)>,
}

impl Fields {
    /// No fields.
    pub fn new() -> (fields: Fields)
        ensures
            object_tree(fields.list@) == no_fields(),
    {
        Fields { list: Vec::new() }
    }

    /// These fields, and `key` with a value, in place of one that it had.
    pub fn with(self, key: &str, value: Json) -> (fields: Fields)
        ensures
            object_tree(fields.list@) == object_tree(self.list@).insert(key@, value@),
    {
        let mut list: Vec<(String, Json)> = self.list;
        let ghost before = list@;
        list.push((key.to_owned(), value));
        assert(list@.drop_last() =~= before);
        Fields { list }
    }

    /// The object of these fields.
    pub fn object(self) -> (j: Json)
        ensures
            j@ == JsonTree::Object(object_tree(self.list@)),
    {
        Json::Object(self.list)
    }
}

/// The items in the list `key` of an object; none where there is no such list.
pub open spec fn items_in(tree: JsonTree, key: Seq<char>) -> Seq<JsonTree> {
    match field(tree, key) {
        Some(list) => items_of(list),
        None => Seq::empty(),
    }
}

/// The items in the list `key` of an object; none where there is no such list.
pub fn take_items(v: Json, key: &str) -> (items: Vec<Json>)
    ensures
        trees(items@) == items_in(v@, key@),
{
    match v {
        Json::Object(list) => {
            let ghost all = list@;
            let mut fields: Vec<(String, Json)> = list;
            while fields.len() > 0
                invariant
                    v == Json::Object(list),
                    all == list@,
                    fields@.len() <= all.len(),
                    fields@ == all.take(fields@.len() as int),
                    forall|j: int| fields@.len() <= j < all.len() ==> (#[trigger] all[j]).0@ != key@,
                decreases fields@.len(),
            {
                let ghost at = fields@.len() - 1;
                match fields.pop() {
                    Some((name, value)) => {
                        assert(all[at] == (name, value));
                        if same_text(name.as_str(), key) {
                            proof {
                                lemma_object_tree_last(all, key@, at);
                            }
                            return into_items(value);
                        }
                    },
                    None => {},
                }
            }
            proof {
                lemma_object_tree_last(all, key@, -1);
            }
            Vec::new()
        },
        _ => Vec::new(),
    }
}

/// An integer.
pub fn json_integer(n: i64) -> (j: Json)
    ensures
        j@ == JsonTree::Number(signed_decimal(n as int)),
{
    Json::Number(integer(n))
}

/// A text.
pub fn json_text(s: &str) -> (j: Json)
    ensures
        j@ == JsonTree::Text(s@),
{
    Json::Text(s.to_owned())
}

/// A field is found exactly where the object has its key, and is the value of
/// that key; what is no object has no fields. A text or a truth value is found
/// only where the field holds one.
pub proof fn law_fields_are_those_of_the_object(
    object: Map<Seq<char>, JsonTree>,
    key: Seq<char>,
    tree: JsonTree,
)
    ensures
        field(JsonTree::Object(object), key) == object.get(key),
        !(tree is Object) ==> field(tree, key) is None,
        text_field(JsonTree::Object(object), key) matches Some(s) ==> object.contains_key(key)
            && object[key] == JsonTree::Text(s),
        object.contains_key(key) && object[key] is Text ==> text_field(
            JsonTree::Object(object),
            key,
        ) is Some,
        bool_field(JsonTree::Object(object), key) matches Some(b) ==> object.contains_key(key)
            && object[key] == JsonTree::Bool(b),
        object.contains_key(key) && object[key] is Bool ==> bool_field(
            JsonTree::Object(object),
            key,
        ) is Some,
        !(tree is Object) ==> text_field(tree, key) is None && bool_field(tree, key) is None,
        text_field(tree, key) is Some ==> text_or_empty(tree, key) == text_field(tree, key)->0,
        text_field(tree, key) is None ==> text_or_empty(tree, key).len() == 0,
{
}

/// A list has its items, in their order, and what is no list has none.
pub proof fn law_items_are_those_of_the_list(items: Seq<JsonTree>, tree: JsonTree, key: Seq<char>)
    ensures
        items_of(JsonTree::List(items)) == items,
        !(tree is List) ==> items_of(tree).len() == 0,
        field(tree, key) == Some(JsonTree::List(items)) ==> items_in(tree, key) == items,
        field(tree, key) is None ==> items_in(tree, key).len() == 0,
        field(tree, key) is Some && !(field(tree, key)->0 is List) ==> items_in(tree, key).len()
            == 0,
{
}

/// A value says of itself what it is: a list its items in their order, an object
/// each key with its value, of which one that is given again takes the later.
pub proof fn law_values_say_what_they_hold(
    items: Seq<Json>,
    i: int,
    fields: Seq<(String, Json)>,
    name: String,
    value: Json,
    n: serde_json::Number,
)
    requires
        0 <= i < items.len(),
    ensures
        trees(items).len() == items.len(),
        trees(items)[i] == items[i]@,
        object_tree(fields.push((name, value))) == object_tree(fields).insert(name@, value@),
        object_tree(Seq::empty()) == no_fields(),
        no_fields().dom() =~= Set::empty(),
        number_tree(Some(n)) == JsonTree::Number(number_text(n)),
        number_tree(None) == JsonTree::Null,
{
    assert(fields.push((name, value)).drop_last() =~= fields);
}

} // verus!
