//! JSON documents as plain values, read and written by `serde_json`.

use vstd::prelude::*;

use crate::text::same_text;

verus! {

broadcast use {vstd::seq::group_seq_axioms, vstd::map::group_map_axioms};

/// A JSON value of the outside crate.
#[verifier::external_type_specification]
#[verifier::external_body]
pub struct ExValue(serde_json::Value);

/// A JSON number of the outside crate; it is only carried along.
#[verifier::external_type_specification]
#[verifier::external_body]
pub struct ExNumber(serde_json::Number);

/// A JSON document as a mathematical value. The members of an object have no order.
pub enum JsonTree {
    Null,
    Bool(bool),
    Number(serde_json::Number),
    Text(Seq<char>),
    Array(Seq<JsonTree>),
    Object(Map<Seq<char>, JsonTree>),
}

/// A JSON document.
#[derive(Debug)]
pub enum Json {
    Null,
    Bool(bool),
    Number(serde_json::Number),
    Text(String),
    Array(Vec<Json>),
    Object(Vec<(String, Json)>),
}

/// One level of a JSON value: what it is, over the values right below it.
pub enum Node {
    Null,
    Bool(bool),
    Number(serde_json::Number),
    Text(String),
    Array(Vec<serde_json::Value>),
    Object(Vec<(String, serde_json::Value)>),
}

/// What a JSON value holds.
pub uninterp spec fn value_tree(v: serde_json::Value) -> JsonTree;

/// What `serde_json::from_str` reads out of a text: the document, or the text of the error.
pub uninterp spec fn json_document(text: Seq<char>) -> Result<JsonTree, Seq<char>>;

/// The compact text that `Value::to_string` writes.
pub uninterp spec fn compact_text(tree: JsonTree) -> Seq<char>;

/// The indented text that `serde_json::to_string_pretty` writes of a value.
pub uninterp spec fn pretty_text(tree: JsonTree) -> Seq<char>;

/// The members of an object by name; of two with one name, the later counts.
pub open spec fn value_members(ms: Seq<(String, serde_json::Value)>) -> Map<Seq<char>, JsonTree>
    decreases ms.len(),
{
    if ms.len() == 0 {
        Map::empty()
    } else {
        value_members(ms.drop_last()).insert(ms.last().0@, value_tree(ms.last().1))
    }
}

impl Node {
    /// The document that this level makes up.
    pub open spec fn tree(self) -> JsonTree {
        match self {
            Node::Null => JsonTree::Null,
            Node::Bool(b) => JsonTree::Bool(b),
            Node::Number(n) => JsonTree::Number(n),
            Node::Text(s) => JsonTree::Text(s@),
            Node::Array(items) => JsonTree::Array(
                items@.map_values(|v: serde_json::Value| value_tree(v)),
            ),
            Node::Object(ms) => JsonTree::Object(value_members(ms@)),
        }
    }
}

impl Json {
    /// The document as a mathematical value.
    pub open spec fn tree(self) -> JsonTree
        decreases self,
    {
        match self {
            Json::Null => JsonTree::Null,
            Json::Bool(b) => JsonTree::Bool(b),
            Json::Number(n) => JsonTree::Number(n),
            Json::Text(s) => JsonTree::Text(s@),
            Json::Array(items) => JsonTree::Array(trees(items@)),
            Json::Object(ms) => JsonTree::Object(members(ms@)),
        }
    }
}

/// The documents of `items`, in order.
pub open spec fn trees(items: Seq<Json>) -> Seq<JsonTree>
    decreases items,
{
    if items.len() == 0 {
        Seq::empty()
    } else {
        trees(items.drop_last()).push(items.last().tree())
    }
}

/// The members of an object by name; of two with one name, the later counts.
pub open spec fn members(ms: Seq<(String, Json)>) -> Map<Seq<char>, JsonTree>
    decreases ms,
{
    if ms.len() == 0 {
        Map::empty()
    } else {
        members(ms.drop_last()).insert(ms.last().0@, ms.last().1.tree())
    }
}

/// Whether no name stands twice.
pub open spec fn distinct_names(ms: Seq<(String, serde_json::Value)>) -> bool {
    forall|i: int, j: int|
        0 <= i < j < ms.len() ==> (#[trigger] ms[i]).0@ != (#[trigger] ms[j]).0@
}

/// `serde_json::from_str` at `Value`: the document in `text`, or the text of its error.
#[verifier::external_body]
fn value_from_str(text: &str) -> (r: Result<serde_json::Value, String>)
    ensures
        match r {
            Ok(v) => json_document(text@) == Ok::<JsonTree, Seq<char>>(value_tree(v)),
            Err(e) => json_document(text@) == Err::<JsonTree, Seq<char>>(e@),
        },
{
    serde_json::from_str(text).map_err(|e| e.to_string())
}

/// The variants of `Value`, told apart. The members of an object have distinct names.
#[verifier::external_body]
fn open_value(v: serde_json::Value) -> (r: Node)
    ensures
        r.tree() == value_tree(v),
        r matches Node::Object(ms) ==> distinct_names(ms@),
{
    match v {
        serde_json::Value::Null => Node::Null,
        serde_json::Value::Bool(b) => Node::Bool(b),
        serde_json::Value::Number(n) => Node::Number(n),
        serde_json::Value::String(s) => Node::Text(s),
        serde_json::Value::Array(items) => Node::Array(items),
        serde_json::Value::Object(ms) => Node::Object(ms.into_iter().collect()),
    }
}

/// `Value` out of one of its variants. The members of an object have distinct names, and all of
/// them stay.
#[verifier::external_body]
fn close_value(node: Node) -> (r: serde_json::Value)
    requires
        node matches Node::Object(ms) ==> distinct_names(ms@),
    ensures
        value_tree(r) == node.tree(),
{
    match node {
        Node::Null => serde_json::Value::Null,
        Node::Bool(b) => serde_json::Value::Bool(b),
        Node::Number(n) => serde_json::Value::Number(n),
        Node::Text(s) => serde_json::Value::String(s),
        Node::Array(items) => serde_json::Value::Array(items),
        Node::Object(ms) => serde_json::Value::Object(ms.into_iter().collect()),
    }
}

/// The derived `Clone` of `Number` copies the number.
pub assume_specification[ <serde_json::Number as Clone>::clone ](
    n: &serde_json::Number,
) -> (r: serde_json::Number)
    ensures
        r == *n,
;

/// Whether `tree` is an object all of whose members are texts.
pub open spec fn flat_texts(tree: JsonTree) -> bool {
    tree matches JsonTree::Object(ms) && forall|name: Seq<char>|
        ms.dom().contains(name) ==> (#[trigger] ms[name]) is Text
}

/// Whether `text` is a document that reads as `tree`.
pub open spec fn reads_as(text: Seq<char>, tree: JsonTree) -> bool {
    json_document(text) == Ok::<JsonTree, Seq<char>>(tree)
}

/// `Value::to_string`: the compact text of the document. The text of an object of texts reads
/// back as that object.
#[verifier::external_body]
fn value_to_string(v: &serde_json::Value) -> (r: String)
    ensures
        r@ == compact_text(value_tree(*v)),
        flat_texts(value_tree(*v)) ==> reads_as(r@, value_tree(*v)),
{
    v.to_string()
}

/// `serde_json::to_string_pretty` at `Value`: the indented text of the document. Writing a value to
/// memory always succeeds.
#[verifier::external_body]
fn value_to_string_pretty(v: &serde_json::Value) -> (r: Result<String, String>)
    ensures
        match r {
            Ok(text) => text@ == pretty_text(value_tree(*v)),
            Err(_) => false,
        },
{
    serde_json::to_string_pretty(v).map_err(|e| e.to_string())
}

/// `trees` goes item by item.
pub proof fn lemma_trees(items: Seq<Json>)
    ensures
        trees(items).len() == items.len(),
        forall|i: int| 0 <= i < items.len() ==> (#[trigger] trees(items)[i]) == items[i].tree(),
    decreases items.len(),
{
    if items.len() > 0 {
        lemma_trees(items.drop_last());
    }
}

proof fn lemma_value_members(ms: Seq<(String, serde_json::Value)>)
    requires
        distinct_names(ms),
    ensures
        value_members(ms).dom().finite(),
        forall|i: int|
            0 <= i < ms.len() ==> value_members(ms).dom().contains((#[trigger] ms[i]).0@)
                && value_members(ms)[ms[i].0@] == value_tree(ms[i].1),
    decreases ms.len(),
{
    if ms.len() > 0 {
        lemma_value_members(ms.drop_last());
        assert forall|i: int| 0 <= i < ms.len() implies value_members(ms).dom().contains(
            (#[trigger] ms[i]).0@,
        ) && value_members(ms)[ms[i].0@] == value_tree(ms[i].1) by {
            if i < ms.len() - 1 {
                assert(ms.drop_last()[i] == ms[i]);
            }
        }
    }
}

/// `v` as a plain document.
fn json_of(v: serde_json::Value) -> (r: Json)
    ensures
        r.tree() == value_tree(v),
    decreases value_tree(v),
{
    let ghost whole = value_tree(v);
    match open_value(v) {
        Node::Null => Json::Null,
        Node::Bool(b) => Json::Bool(b),
        Node::Number(n) => Json::Number(n),
        Node::Text(s) => Json::Text(s),
        Node::Array(values) => {
            let ghost all = values@;
            let mut items: Vec<Json> = Vec::new();
            for value in it: values.into_iter()
                invariant
                    it.seq() == all,
                    whole == value_tree(v),
                    whole == JsonTree::Array(
                        all.map_values(|v: serde_json::Value| value_tree(v)),
                    ),
                    items@.len() == it.index(),
                    forall|i: int|
                        0 <= i < items@.len() ==> (#[trigger] items@[i]).tree() == value_tree(
                            all[i],
                        ),
            {
                proof {
                    let parts = all.map_values(|v: serde_json::Value| value_tree(v));
                    assert(parts[it.index() as int] == value_tree(value));
                    assert(decreases_to!(whole => whole->Array_0[it.index() as int]));
                }
                items.push(json_of(value));
            }
            proof {
                lemma_trees(items@);
                assert(trees(items@) =~= all.map_values(|v: serde_json::Value| value_tree(v)));
            }
            Json::Array(items)
        },
        Node::Object(pairs) => {
            let ghost all = pairs@;
            proof {
                lemma_value_members(all);
            }
            let mut ms: Vec<(String, Json)> = Vec::new();
            for pair in it: pairs.into_iter()
                invariant
                    it.seq() == all,
                    whole == value_tree(v),
                    whole == JsonTree::Object(value_members(all)),
                    value_members(all).dom().finite(),
                    forall|i: int|
                        0 <= i < all.len() ==> value_members(all).dom().contains(
                            (#[trigger] all[i]).0@,
                        ) && value_members(all)[all[i].0@] == value_tree(all[i].1),
                    ms@.len() == it.index(),
                    members(ms@) == value_members(all.take(it.index() as int)),
            {
                proof {
                    assert(decreases_to!(whole => whole->Object_0[pair.0@]));
                }
                let ghost before = ms@;
                let name = pair.0;
                let child = json_of(pair.1);
                ms.push((name, child));
                proof {
                    assert(ms@.drop_last() =~= before);
                    assert(all.take(it.index() as int + 1).drop_last() =~= all.take(
                        it.index() as int,
                    ));
                }
            }
            assert(all.take(all.len() as int) =~= all);
            Json::Object(ms)
        },
    }
}

/// Whether `name` stands in `ms` at `from` or after it.
pub open spec fn stands_from(ms: Seq<(String, Json)>, from: int, name: Seq<char>) -> bool {
    exists|k: int| from <= k < ms.len() && (#[trigger] ms[k]).0@ == name
}

/// The first `n` members by name, without those whose name stands again later.
pub open spec fn settled(ms: Seq<(String, Json)>, n: int) -> Map<Seq<char>, JsonTree> {
    members(ms.take(n)).remove_keys(Set::new(|name: Seq<char>| stands_from(ms, n, name)))
}

/// Whether `name` stands in `ms` at `from` or after it.
fn stands_later(ms: &Vec<(String, Json)>, from: usize, name: &str) -> (r: bool)
    ensures
        r == stands_from(ms@, from as int, name@),
{
    let mut k: usize = from;
    while k < ms.len()
        invariant
            from <= k,
            forall|i: int| from <= i < k && i < ms@.len() ==> (#[trigger] ms@[i]).0@ != name@,
        decreases ms@.len() - k,
    {
        if same_text(ms[k].0.as_str(), name) {
            return true;
        }
        k = k + 1;
    }
    false
}

/// `json` as a value of the outside crate.
fn value_of(json: &Json) -> (r: serde_json::Value)
    ensures
        value_tree(r) == json.tree(),
    decreases *json,
{
    match json {
        Json::Null => close_value(Node::Null),
        Json::Bool(b) => close_value(Node::Bool(*b)),
        Json::Number(n) => close_value(Node::Number(n.clone())),
        Json::Text(s) => close_value(Node::Text(s.clone())),
        Json::Array(items) => {
            let mut values: Vec<serde_json::Value> = Vec::new();
            let mut i: usize = 0;
            while i < items.len()
                invariant
                    *json == Json::Array(*items),
                    i <= items@.len(),
                    values@.len() == i,
                    forall|k: int|
                        0 <= k < i ==> value_tree(#[trigger] values@[k]) == items@[k].tree(),
                decreases items@.len() - i,
            {
                assert(decreases_to!(*json => json->Array_0@[i as int]));
                values.push(value_of(&items[i]));
                i = i + 1;
            }
            proof {
                lemma_trees(items@);
                assert(trees(items@) =~= values@.map_values(
                    |v: serde_json::Value| value_tree(v),
                ));
            }
            close_value(Node::Array(values))
        },
        Json::Object(ms) => {
            let mut pairs: Vec<(String, serde_json::Value)> = Vec::new();
            let mut i: usize = 0;
            while i < ms.len()
                invariant
                    *json == Json::Object(*ms),
                    i <= ms@.len(),
                    distinct_names(pairs@),
                    forall|k: int|
                        0 <= k < pairs@.len() ==> !stands_from(ms@, i as int, (#[trigger] pairs@[k]).0@),
                    value_members(pairs@) == settled(ms@, i as int),
                decreases ms@.len() - i,
            {
                let ghost before = pairs@;
                let ghost name = ms@[i as int].0@;
                assert(decreases_to!(*json => json->Object_0@[i as int].1));
                assert(ms@.take(i as int + 1).drop_last() =~= ms@.take(i as int));
                assert(stands_from(ms@, i as int, name));
                if !stands_later(ms, i + 1, ms[i].0.as_str()) {
                    pairs.push((ms[i].0.clone(), value_of(&ms[i].1)));
                    assert(pairs@.drop_last() =~= before);
                }
                assert(value_members(pairs@) =~= settled(ms@, i as int + 1));
                i = i + 1;
            }
            assert(ms@.take(ms@.len() as int) =~= ms@);
            assert(settled(ms@, ms@.len() as int) =~= members(ms@));
            close_value(Node::Object(pairs))
        },
    }
}

/// The document in `text`, or the text of the error.
pub fn parse_json(text: &str) -> (r: Result<Json, String>)
    ensures
        match r {
            Ok(json) => reads_as(text@, json.tree()),
            Err(e) => json_document(text@) == Err::<JsonTree, Seq<char>>(e@),
        },
{
    match value_from_str(text) {
        Ok(v) => Ok(json_of(v)),
        Err(e) => Err(e),
    }
}

/// The compact text of `json`. That of an object of texts reads back as the object.
pub fn json_text(json: &Json) -> (r: String)
    ensures
        r@ == compact_text(json.tree()),
        flat_texts(json.tree()) ==> reads_as(r@, json.tree()),
{
    value_to_string(&value_of(json))
}

/// The indented text of `json`.
pub fn json_pretty(json: &Json) -> (r: String)
    ensures
        r@ == pretty_text(json.tree()),
{
    value_to_string_pretty(&value_of(json)).unwrap()
}

/// The member `name` of an object; a document that is no object has none.
pub open spec fn field(tree: JsonTree, name: Seq<char>) -> Option<JsonTree> {
    match tree {
        JsonTree::Object(ms) => if ms.dom().contains(name) {
            Some(ms[name])
        } else {
            None
        },
        _ => None,
    }
}

/// The member `name` of a member.
pub open spec fn subfield(tree: Option<JsonTree>, name: Seq<char>) -> Option<JsonTree> {
    match tree {
        Some(t) => field(t, name),
        None => None,
    }
}

/// The document, where there is one.
pub open spec fn tree_of(json: Option<&Json>) -> Option<JsonTree> {
    match json {
        Some(j) => Some(j.tree()),
        None => None,
    }
}

/// The text, where `tree` is one.
pub open spec fn text_of(tree: Option<JsonTree>) -> Option<Seq<char>> {
    match tree {
        Some(JsonTree::Text(s)) => Some(s),
        _ => None,
    }
}

impl Json {
    /// The member `name` of an object.
    pub fn get<'a>(&'a self, name: &str) -> (r: Option<&'a Json>)
        ensures
            tree_of(r) == field(self.tree(), name@),
    {
        match self {
            Json::Object(ms) => {
                let mut i: usize = ms.len();
                assert(ms@.take(i as int) =~= ms@);
                while i > 0
                    invariant
                        i <= ms@.len(),
                        *self == Json::Object(*ms),
                        field(self.tree(), name@) == field(
                            JsonTree::Object(members(ms@.take(i as int))),
                            name@,
                        ),
                    decreases i,
                {
                    assert(ms@.take(i as int).drop_last() =~= ms@.take(i as int - 1));
                    i = i - 1;
                    if same_text(ms[i].0.as_str(), name) {
                        return Some(&ms[i].1);
                    }
                }
                None
            },
            _ => None,
        }
    }

    /// The items of an array.
    pub fn as_array<'a>(&'a self) -> (r: Option<&'a Vec<Json>>)
        ensures
            match r {
                Some(items) => self.tree() == JsonTree::Array(trees(items@)),
                None => !(self.tree() is Array),
            },
    {
        match self {
            Json::Array(items) => Some(items),
            _ => None,
        }
    }

    /// The text of a string.
    pub fn as_text<'a>(&'a self) -> (r: Option<&'a String>)
        ensures
            match r {
                Some(s) => self.tree() == JsonTree::Text(s@),
                None => !(self.tree() is Text),
            },
    {
        match self {
            Json::Text(s) => Some(s),
            _ => None,
        }
    }

    /// The text of the member `name` of an object.
    pub fn get_text<'a>(&'a self, name: &str) -> (r: Option<&'a String>)
        ensures
            match r {
                Some(s) => text_of(field(self.tree(), name@)) == Some(s@),
                None => text_of(field(self.tree(), name@)) is None,
            },
    {
        match self.get(name) {
            Some(json) => json.as_text(),
            None => None,
        }
    }
}

} // verus!
