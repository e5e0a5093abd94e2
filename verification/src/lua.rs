//! Values of the Lua runtime, and their conversion to and from JSON.

use vstd::prelude::*;

use crate::json;
use crate::json::{number_of_u64, Json, JsonTree};
use crate::text;
use crate::text::{concat, same, utf8_text};
use crate::wire;

verus! {

/// A Lua value, taken apart.
#[derive(Debug)]
pub enum LuaData {
    Nil,
    Bool(bool),
    Int(i64),
    /// A finite floating-point number.
    Float(serde_json::Number),
    /// An infinite number, or none.
    NonFinite,
    /// A string of bytes.
    Str(Vec<u8>),
    /// A table: its values from one up to its length, and its keys with their values.
    Table(Vec<LuaData>, Vec<(LuaData, LuaData)>),
    /// A function, a thread or other data.
    Other,
}

/// The model of a Lua value.
pub enum LuaTree {
    Nil,
    Bool(bool),
    Int(int),
    Float(serde_json::Number),
    NonFinite,
    Str(Seq<u8>),
    Table(Seq<LuaTree>, Seq<(LuaTree, LuaTree)>),
    Other,
}

impl LuaData {
    /// The model of the value.
    pub open spec fn tree(self) -> LuaTree
        decreases self,
    {
        match self {
            LuaData::Nil => LuaTree::Nil,
            LuaData::Bool(b) => LuaTree::Bool(b),
            LuaData::Int(i) => LuaTree::Int(i as int),
            LuaData::Float(n) => LuaTree::Float(n),
            LuaData::NonFinite => LuaTree::NonFinite,
            LuaData::Str(b) => LuaTree::Str(b@),
            LuaData::Table(list, pairs) => LuaTree::Table(data_trees(list@), data_pairs(pairs@)),
            LuaData::Other => LuaTree::Other,
        }
    }
}

/// The models of a list of values.
pub open spec fn data_trees(list: Seq<LuaData>) -> Seq<LuaTree>
    decreases list,
{
    if list.len() == 0 {
        seq![]
    } else {
        data_trees(list.drop_last()).push(list.last().tree())
    }
}

/// The models of a list of keys and values.
pub open spec fn data_pairs(pairs: Seq<(LuaData, LuaData)>) -> Seq<(LuaTree, LuaTree)>
    decreases pairs,
{
    if pairs.len() == 0 {
        seq![]
    } else {
        data_pairs(pairs.drop_last()).push((pairs.last().0.tree(), pairs.last().1.tree()))
    }
}

/// The models of a list, item by item.
pub proof fn lemma_data_trees(list: Seq<LuaData>)
    ensures
        data_trees(list).len() == list.len(),
        forall|i: int| 0 <= i < list.len() ==> #[trigger] data_trees(list)[i] == list[i].tree(),
    decreases list.len(),
{
    if list.len() > 0 {
        lemma_data_trees(list.drop_last());
    }
}

/// The models of keys and values, item by item.
pub proof fn lemma_data_pairs(pairs: Seq<(LuaData, LuaData)>)
    ensures
        data_pairs(pairs).len() == pairs.len(),
        forall|i: int|
            0 <= i < pairs.len() ==> #[trigger] data_pairs(pairs)[i] == (
                pairs[i].0.tree(),
                pairs[i].1.tree(),
            ),
    decreases pairs.len(),
{
    if pairs.len() > 0 {
        lemma_data_pairs(pairs.drop_last());
    }
}

// ── From JSON ──

/// Whether a Lua value stands for a JSON value. An integer that Lua has no integer for
/// becomes a number with the same value.
pub open spec fn stands_for(l: LuaTree, t: JsonTree) -> bool
    decreases t,
{
    match t {
        JsonTree::Null => l == LuaTree::Nil,
        JsonTree::Bool(b) => l == LuaTree::Bool(b),
        JsonTree::Int(i) => if i64::MIN <= i <= i64::MAX {
            l == LuaTree::Int(i)
        } else {
            l matches LuaTree::Float(n) && json::number_value(n) == Some(i)
        },
        JsonTree::Float(n) => l == LuaTree::Float(n),
        JsonTree::Str(s) => l == LuaTree::Str(vstd::utf8::encode_utf8(s)),
        JsonTree::Array(items) => l matches LuaTree::Table(list, pairs) && pairs.len() == 0
            && list.len() == items.len() && forall|i: int|
            0 <= i < items.len() ==> stands_for(#[trigger] list[i], items[i]),
        JsonTree::Object(fields) => l matches LuaTree::Table(list, pairs) && list.len() == 0
            && pairs.len() == fields.len() && forall|i: int|
            0 <= i < fields.len() ==> (#[trigger] pairs[i]).0 == LuaTree::Str(
                vstd::utf8::encode_utf8(fields[i].0),
            ) && stands_for(pairs[i].1, fields[i].1),
    }
}

/// The bytes of a text.
pub fn bytes_of(s: &str) -> (b: Vec<u8>)
    ensures
        b@ == vstd::utf8::encode_utf8(s@),
{
    let all = s.as_bytes();
    let mut b: Vec<u8> = Vec::new();
    for i in 0..all.len()
        invariant
            b@ == all@.take(i as int),
    {
        b.push(all[i]);
        assert(all@.take(i + 1) =~= all@.take(i as int).push(all@[i as int]));
    }
    assert(all@.take(all@.len() as int) =~= all@);
    b
}

/// A Lua string with the bytes of a text.
pub fn lua_str(s: &str) -> (d: LuaData)
    ensures
        d.tree() == LuaTree::Str(vstd::utf8::encode_utf8(s@)),
{
    LuaData::Str(bytes_of(s))
}

/// Setting a field that is already there changes its value.
proof fn lemma_put_field_at(
    fields: Seq<(Seq<char>, JsonTree)>,
    key: Seq<char>,
    value: JsonTree,
    i: int,
)
    requires
        0 <= i < fields.len(),
        fields[i].0 == key,
        forall|k: int| 0 <= k < i ==> (#[trigger] fields[k]).0 != key,
    ensures
        json::put_field(fields, key, value) == fields.update(i, (key, value)),
    decreases fields.len(),
{
    if i > 0 {
        let rest = fields.drop_first();
        assert forall|k: int| 0 <= k < i - 1 implies (#[trigger] rest[k]).0 != key by {
            assert(rest[k] == fields[k + 1]);
        }
        assert(fields[0].0 != key);
        lemma_put_field_at(rest, key, value, i - 1);
        assert(seq![fields[0]] + rest.update(i - 1, (key, value)) =~= fields.update(
            i,
            (key, value),
        ));
    }
}

/// The fields of an object, each key once.
fn settled(fields: &[(String, Json)]) -> (out: Vec<(String, Json)>)
    ensures
        json::pair_trees(out@) == json::put_fields(json::pair_trees(fields@)),
{
    let ghost all = json::pair_trees(fields@);
    let mut out: Vec<(String, Json)> = Vec::new();
    proof {
        json::lemma_pair_trees(fields@);
        assert(all.take(0) =~= seq![]);
    }
    for i in 0..fields.len()
        invariant
            all == json::pair_trees(fields@),
            all.len() == fields@.len(),
            forall|k: int|
                0 <= k < fields@.len() ==> #[trigger] all[k] == (
                    fields@[k].0@,
                    fields@[k].1.tree(),
                ),
            json::pair_trees(out@) == json::put_fields(all.take(i as int)),
    {
        let ghost before = json::pair_trees(out@);
        let ghost key = all[i as int].0;
        let ghost value = all[i as int].1;
        proof {
            json::lemma_pair_trees(out@);
            assert(all.take(i + 1).drop_last() =~= all.take(i as int));
            assert(all.take(i + 1).last() == all[i as int]);
        }
        let mut k: usize = 0;
        while k < out.len() && !same(out[k].0.as_str(), fields[i].0.as_str())
            invariant
                i < fields@.len(),
                k <= out@.len(),
                before == json::pair_trees(out@),
                before.len() == out@.len(),
                forall|j: int|
                    0 <= j < out@.len() ==> #[trigger] before[j] == (
                        out@[j].0@,
                        out@[j].1.tree(),
                    ),
                forall|j: int| 0 <= j < k ==> (#[trigger] before[j]).0 != fields@[i as int].0@,
            decreases out.len() - k,
        {
            assert(before[k as int].0 == out@[k as int].0@);
            k = k + 1;
        }
        let item = (fields[i].0.clone(), fields[i].1.copy());
        if k < out.len() {
            proof {
                assert(before[k as int].0 == out@[k as int].0@);
                lemma_put_field_at(before, key, value, k as int);
            }
            out.set(k, item);
            proof {
                json::lemma_pair_trees(out@);
                assert(json::pair_trees(out@) =~= before.update(k as int, (key, value)));
            }
        } else {
            proof {
                json::lemma_put_field_new(before, key, value);
            }
            out.push(item);
            proof {
                json::lemma_pair_trees(out@);
                assert(json::pair_trees(out@) =~= before.push((key, value)));
            }
        }
    }
    assert(all.take(all.len() as int) =~= all);
    out
}

fn number_to_lua(n: &serde_json::Number) -> (d: LuaData)
    ensures
        stands_for(d.tree(), json::number_tree(*n)),
{
    match n.as_i64() {
        Some(i) => LuaData::Int(i),
        None => LuaData::Float(n.clone()),
    }
}

/// Converts a JSON value.
pub fn json_to_lua(j: &Json) -> (d: LuaData)
    ensures
        stands_for(d.tree(), j.tree()),
    decreases j.tree(),
{
    let ghost whole = j.tree();
    match j {
        Json::Null => LuaData::Nil,
        Json::Bool(b) => LuaData::Bool(*b),
        Json::Uint(u) => if *u <= i64::MAX as u64 {
            LuaData::Int(*u as i64)
        } else {
            LuaData::Float(number_of_u64(*u))
        },
        Json::Int(i) => LuaData::Int(*i),
        Json::Float(n) => number_to_lua(n),
        Json::Str(s) => lua_str(s.as_str()),
        Json::Array(items) => {
            let mut list: Vec<LuaData> = Vec::new();
            proof {
                json::lemma_trees(items@);
            }
            for i in 0..items.len()
                invariant
                    whole == j.tree(),
                    whole == JsonTree::Array(json::trees(items@)),
                    json::trees(items@).len() == items@.len(),
                    forall|k: int|
                        0 <= k < items@.len() ==> #[trigger] json::trees(items@)[k]
                            == items@[k].tree(),
                    list@.len() == i,
                    forall|k: int|
                        0 <= k < i ==> stands_for(
                            (#[trigger] list@[k]).tree(),
                            items@[k].tree(),
                        ),
            {
                proof {
                    assert(whole->Array_0[i as int] == items@[i as int].tree());
                    assert(decreases_to!(whole => whole->Array_0[i as int]));
                }
                list.push(json_to_lua(&items[i]));
            }
            let pairs: Vec<(LuaData, LuaData)> = Vec::new();
            proof {
                lemma_data_trees(list@);
                let shown = data_trees(list@);
                assert forall|k: int| 0 <= k < items@.len() implies stands_for(
                    #[trigger] shown[k],
                    json::trees(items@)[k],
                ) by {
                    assert(stands_for(list@[k].tree(), items@[k].tree()));
                }
            }
            LuaData::Table(list, pairs)
        },
        Json::Object(fields) => {
            let all = settled(fields.as_slice());
            let mut pairs: Vec<(LuaData, LuaData)> = Vec::new();
            proof {
                json::lemma_pair_trees(all@);
            }
            for i in 0..all.len()
                invariant
                    whole == j.tree(),
                    whole == JsonTree::Object(json::pair_trees(all@)),
                    json::pair_trees(all@).len() == all@.len(),
                    forall|k: int|
                        0 <= k < all@.len() ==> #[trigger] json::pair_trees(all@)[k] == (
                            all@[k].0@,
                            all@[k].1.tree(),
                        ),
                    pairs@.len() == i,
                    forall|k: int|
                        0 <= k < i ==> (#[trigger] pairs@[k]).0.tree() == LuaTree::Str(
                            vstd::utf8::encode_utf8(all@[k].0@),
                        ) && stands_for(pairs@[k].1.tree(), all@[k].1.tree()),
            {
                proof {
                    assert(whole->Object_0[i as int].1 == all@[i as int].1.tree());
                    assert(decreases_to!(whole => whole->Object_0[i as int].1));
                }
                pairs.push((lua_str(all[i].0.as_str()), json_to_lua(&all[i].1)));
            }
            let list: Vec<LuaData> = Vec::new();
            proof {
                lemma_data_pairs(pairs@);
                let shown = data_pairs(pairs@);
                let tree = json::pair_trees(all@);
                assert forall|k: int| 0 <= k < tree.len() implies (#[trigger] shown[k]).0
                    == LuaTree::Str(vstd::utf8::encode_utf8(tree[k].0)) && stands_for(
                    shown[k].1,
                    tree[k].1,
                ) by {
                    assert(stands_for(pairs@[k].1.tree(), all@[k].1.tree()));
                }
            }
            LuaData::Table(list, pairs)
        },
    }
}

// ── To JSON ──

/// The reason for a string that is no text.
pub open spec fn no_text(bytes: Seq<u8>) -> Seq<char> {
    "error converting Lua string to &str ("@ + text::utf8_error(bytes) + ")"@
}

/// The text of a string.
pub open spec fn lua_text(bytes: Seq<u8>) -> Result<Seq<char>, Seq<char>> {
    if vstd::utf8::valid_utf8(bytes) {
        Ok(vstd::utf8::decode_utf8(bytes))
    } else {
        Err(no_text(bytes))
    }
}

/// The JSON value of a Lua value. A table with a length is an array; any other is an object
/// of its text keys. What JSON has no value for is `null`.
pub open spec fn json_of(l: LuaTree) -> Result<JsonTree, Seq<char>>
    decreases l,
{
    match l {
        LuaTree::Nil => Ok(JsonTree::Null),
        LuaTree::Bool(b) => Ok(JsonTree::Bool(b)),
        LuaTree::Int(i) => Ok(JsonTree::Int(i)),
        LuaTree::Float(n) => Ok(json::number_tree(n)),
        LuaTree::NonFinite => Ok(JsonTree::Null),
        LuaTree::Str(b) => match lua_text(b) {
            Ok(s) => Ok(JsonTree::Str(s)),
            Err(e) => Err(e),
        },
        LuaTree::Table(list, pairs) => if list.len() > 0 {
            match json_list(list) {
                Ok(items) => Ok(JsonTree::Array(items)),
                Err(e) => Err(e),
            }
        } else {
            match json_fields(pairs) {
                Ok(fields) => Ok(JsonTree::Object(json::put_fields(fields))),
                Err(e) => Err(e),
            }
        },
        LuaTree::Other => Ok(JsonTree::Null),
    }
}

/// The JSON values of a list, or the first reason why one has none.
pub open spec fn json_list(list: Seq<LuaTree>) -> Result<Seq<JsonTree>, Seq<char>>
    decreases list,
{
    if list.len() == 0 {
        Ok(seq![])
    } else {
        match json_list(list.drop_last()) {
            Err(e) => Err(e),
            Ok(before) => match json_of(list.last()) {
                Err(e) => Err(e),
                Ok(t) => Ok(before.push(t)),
            },
        }
    }
}

/// The fields of a table: those whose key is a string.
pub open spec fn json_fields(pairs: Seq<(LuaTree, LuaTree)>) -> Result<
    Seq<(Seq<char>, JsonTree)>,
    Seq<char>,
>
    decreases pairs,
{
    if pairs.len() == 0 {
        Ok(seq![])
    } else {
        match json_fields(pairs.drop_last()) {
            Err(e) => Err(e),
            Ok(before) => match pairs.last().0 {
                LuaTree::Str(b) => match lua_text(b) {
                    Err(e) => Err(e),
                    Ok(key) => match json_of(pairs.last().1) {
                        Err(e) => Err(e),
                        Ok(t) => Ok(before.push((key, t))),
                    },
                },
                _ => Ok(before),
            },
        }
    }
}

/// The text of a string.
pub fn string_text(bytes: &[u8]) -> (r: Result<String, String>)
    ensures
        match r {
            Ok(s) => wire::gives(lua_text(bytes@), s@),
            Err(e) => wire::fails(lua_text(bytes@), e@),
        },
{
    match utf8_text(bytes) {
        Ok(s) => Ok(s),
        Err(e) => {
            let mut m = concat("error converting Lua string to &str (", e.as_str());
            m.append(")");
            Err(m)
        },
    }
}

/// Whether a conversion gave this.
pub open spec fn converted(r: Result<Json, String>, t: Result<JsonTree, Seq<char>>) -> bool {
    match r {
        Ok(j) => wire::gives(t, j.tree()),
        Err(e) => wire::fails(t, e@),
    }
}

/// Converts a Lua value to JSON.
pub fn lua_to_json(value: &LuaData) -> (r: Result<Json, String>)
    ensures
        converted(r, json_of(value.tree())),
    decreases value,
{
    match value {
        LuaData::Nil => Ok(Json::Null),
        LuaData::Bool(b) => Ok(Json::Bool(*b)),
        LuaData::Int(i) => Ok(Json::Int(*i)),
        LuaData::Float(n) => Ok(Json::Float(n.clone())),
        LuaData::NonFinite => Ok(Json::Null),
        LuaData::Str(b) => match string_text(b.as_slice()) {
            Ok(s) => Ok(Json::Str(s)),
            Err(e) => Err(e),
        },
        LuaData::Table(list, pairs) => if list.len() > 0 {
            let ghost all = data_trees(list@);
            let mut items: Vec<Json> = Vec::new();
            proof {
                lemma_data_trees(list@);
                json::lemma_trees(items@);
                assert(all.take(0) =~= seq![]);
            }
            for i in 0..list.len()
                invariant
                    *value == LuaData::Table(*list, *pairs),
                    list@.len() > 0,
                    all == data_trees(list@),
                    all.len() == list@.len(),
                    forall|k: int|
                        0 <= k < list@.len() ==> #[trigger] all[k] == list@[k].tree(),
                    wire::gives(json_list(all.take(i as int)), json::trees(items@)),
            {
                assert(decreases_to!(*value => value->Table_0));
                assert(decreases_to!(list => list@));
                assert(decreases_to!(list@ => list@[i as int]));
                proof {
                    assert(all.take(i + 1).drop_last() =~= all.take(i as int));
                    assert(all.take(i + 1).last() == all[i as int]);
                }
                match lua_to_json(&list[i]) {
                    Ok(j) => {
                        let ghost before = items@;
                        items.push(j);
                        assert(items@.drop_last() =~= before);
                    },
                    Err(e) => {
                        proof {
                            lemma_list_error(all, i as int);
                        }
                        return Err(e);
                    },
                }
            }
            assert(all.take(all.len() as int) =~= all);
            Ok(Json::Array(items))
        } else {
            let ghost all = data_pairs(pairs@);
            let mut fields: Vec<(String, Json)> = Vec::new();
            proof {
                lemma_data_trees(list@);
                lemma_data_pairs(pairs@);
                json::lemma_pair_trees(fields@);
                assert(all.take(0) =~= seq![]);
            }
            for i in 0..pairs.len()
                invariant
                    *value == LuaData::Table(*list, *pairs),
                    data_trees(list@).len() == 0,
                    all == data_pairs(pairs@),
                    all.len() == pairs@.len(),
                    forall|k: int|
                        0 <= k < pairs@.len() ==> #[trigger] all[k] == (
                            pairs@[k].0.tree(),
                            pairs@[k].1.tree(),
                        ),
                    wire::gives(json_fields(all.take(i as int)), json::pair_trees(fields@)),
            {
                assert(decreases_to!(*value => value->Table_1));
                assert(decreases_to!(pairs => pairs@));
                assert(decreases_to!(pairs@ => pairs@[i as int]));
                assert(decreases_to!(pairs@[i as int] => pairs@[i as int].1));
                proof {
                    assert(all.take(i + 1).drop_last() =~= all.take(i as int));
                    assert(all.take(i + 1).last() == all[i as int]);
                }
                match &pairs[i].0 {
                    LuaData::Str(b) => {
                        let key = match string_text(b.as_slice()) {
                            Ok(s) => s,
                            Err(e) => {
                                proof {
                                    lemma_fields_error(all, i as int);
                                }
                                return Err(e);
                            },
                        };
                        match lua_to_json(&pairs[i].1) {
                            Ok(j) => {
                                let ghost before = fields@;
                                fields.push((key, j));
                                assert(fields@.drop_last() =~= before);
                            },
                            Err(e) => {
                                proof {
                                    lemma_fields_error(all, i as int);
                                }
                                return Err(e);
                            },
                        }
                    },
                    _ => {},
                }
            }
            assert(all.take(all.len() as int) =~= all);
            Ok(Json::Object(fields))
        },
        LuaData::Other => Ok(Json::Null),
    }
}

/// The first item of a list that has no JSON value decides.
proof fn lemma_list_error(all: Seq<LuaTree>, i: int)
    requires
        0 <= i < all.len(),
        json_list(all.take(i + 1)) is Err,
    ensures
        json_list(all) == json_list(all.take(i + 1)),
    decreases all.len() - i,
{
    if i + 1 == all.len() {
        assert(all.take(i + 1) =~= all);
    } else {
        let next = all.take(i + 2);
        assert(next.drop_last() =~= all.take(i + 1));
        lemma_list_error(all, i + 1);
    }
}

/// The first field that has no JSON value decides.
proof fn lemma_fields_error(all: Seq<(LuaTree, LuaTree)>, i: int)
    requires
        0 <= i < all.len(),
        json_fields(all.take(i + 1)) is Err,
    ensures
        json_fields(all) == json_fields(all.take(i + 1)),
    decreases all.len() - i,
{
    if i + 1 == all.len() {
        assert(all.take(i + 1) =~= all);
    } else {
        let next = all.take(i + 2);
        assert(next.drop_last() =~= all.take(i + 1));
        lemma_fields_error(all, i + 1);
    }
}

// ── There and back ──

/// Whether Lua has a value of its own for everything in a JSON value: it holds no `null`,
/// no fractional number, no integer beyond Lua's, no empty array, and no key twice.
pub open spec fn lua_ready(t: JsonTree) -> bool
    decreases t,
{
    match t {
        JsonTree::Null => false,
        JsonTree::Float(_) => false,
        JsonTree::Int(i) => i64::MIN <= i <= i64::MAX,
        JsonTree::Array(items) => items.len() > 0 && forall|i: int|
            0 <= i < items.len() ==> lua_ready(#[trigger] items[i]),
        JsonTree::Object(fields) => json::distinct_keys(fields) && forall|i: int|
            0 <= i < fields.len() ==> lua_ready((#[trigger] fields[i]).1),
        _ => true,
    }
}

/// A JSON value that Lua has a value for comes back from it as it was.
pub proof fn law_json_through_lua(t: JsonTree, l: LuaTree)
    requires
        lua_ready(t),
        stands_for(l, t),
    ensures
        wire::gives(json_of(l), t),
    decreases t,
{
    match t {
        JsonTree::Str(s) => {
            vstd::utf8::encode_utf8_valid_utf8(s);
            vstd::utf8::encode_utf8_decode_utf8(s);
        },
        JsonTree::Array(items) => {
            let list = l->Table_0;
            lemma_list_back(items, list, items.len() as int);
            assert(list.take(items.len() as int) =~= list);
            assert(items.take(items.len() as int) =~= items);
        },
        JsonTree::Object(fields) => {
            let pairs = l->Table_1;
            lemma_fields_back(fields, pairs, fields.len() as int);
            assert(pairs.take(fields.len() as int) =~= pairs);
            assert(fields.take(fields.len() as int) =~= fields);
            json::lemma_put_fields_distinct(fields);
        },
        _ => {},
    }
}

proof fn lemma_list_back(items: Seq<JsonTree>, list: Seq<LuaTree>, n: int)
    requires
        0 <= n <= items.len(),
        list.len() == items.len(),
        forall|i: int| 0 <= i < items.len() ==> stands_for(#[trigger] list[i], items[i]),
        forall|i: int| 0 <= i < items.len() ==> lua_ready(#[trigger] items[i]),
    ensures
        wire::gives(json_list(list.take(n)), items.take(n)),
    decreases items, n,
{
    if n == 0 {
        assert(list.take(0) =~= seq![]);
        assert(items.take(0) =~= seq![]);
    } else {
        lemma_list_back(items, list, n - 1);
        assert(stands_for(list[n - 1], items[n - 1]));
        assert(decreases_to!(items => items[n - 1]));
        law_json_through_lua(items[n - 1], list[n - 1]);
        assert(list.take(n).drop_last() =~= list.take(n - 1));
        assert(list.take(n).last() == list[n - 1]);
        assert(items.take(n - 1).push(items[n - 1]) =~= items.take(n));
    }
}

proof fn lemma_fields_back(
    fields: Seq<(Seq<char>, JsonTree)>,
    pairs: Seq<(LuaTree, LuaTree)>,
    n: int,
)
    requires
        0 <= n <= fields.len(),
        pairs.len() == fields.len(),
        forall|i: int|
            0 <= i < fields.len() ==> (#[trigger] pairs[i]).0 == LuaTree::Str(
                vstd::utf8::encode_utf8(fields[i].0),
            ) && stands_for(pairs[i].1, fields[i].1),
        forall|i: int| 0 <= i < fields.len() ==> lua_ready((#[trigger] fields[i]).1),
    ensures
        wire::gives(json_fields(pairs.take(n)), fields.take(n)),
    decreases fields, n,
{
    if n == 0 {
        assert(pairs.take(0) =~= seq![]);
        assert(fields.take(0) =~= seq![]);
    } else {
        lemma_fields_back(fields, pairs, n - 1);
        let p = pairs[n - 1];
        assert(lua_ready(fields[n - 1].1));
        assert(decreases_to!(fields => fields[n - 1]));
        assert(decreases_to!(fields[n - 1] => fields[n - 1].1));
        law_json_through_lua(fields[n - 1].1, p.1);
        vstd::utf8::encode_utf8_valid_utf8(fields[n - 1].0);
        vstd::utf8::encode_utf8_decode_utf8(fields[n - 1].0);
        assert(pairs.take(n).drop_last() =~= pairs.take(n - 1));
        assert(pairs.take(n).last() == p);
        assert(fields.take(n - 1).push(fields[n - 1]) =~= fields.take(n));
    }
}

/// What is no table is converted as it is: a text as the text of its bytes, which must be
/// one, and what JSON has no value for as `null`.
pub proof fn law_plain_values_are_converted(b: bool, i: int, bytes: Seq<u8>)
    ensures
        json_of(LuaTree::Nil) matches Ok(t) && t == JsonTree::Null,
        json_of(LuaTree::NonFinite) matches Ok(t) && t == JsonTree::Null,
        json_of(LuaTree::Other) matches Ok(t) && t == JsonTree::Null,
        json_of(LuaTree::Bool(b)) matches Ok(t) && t == JsonTree::Bool(b),
        json_of(LuaTree::Int(i)) matches Ok(t) && t == JsonTree::Int(i),
        vstd::utf8::valid_utf8(bytes) ==> (json_of(LuaTree::Str(bytes)) matches Ok(t) && t
            == JsonTree::Str(vstd::utf8::decode_utf8(bytes))),
        !vstd::utf8::valid_utf8(bytes) ==> json_of(LuaTree::Str(bytes)) is Err,
{
}

/// A table with a length becomes an array of all its values up to that length, in order; its
/// other keys do not count. It fails exactly where one of these values does.
pub proof fn law_table_with_a_length_is_an_array(
    list: Seq<LuaTree>,
    pairs: Seq<(LuaTree, LuaTree)>,
)
    requires
        list.len() > 0,
    ensures
        match json_of(LuaTree::Table(list, pairs)) {
            Ok(t) => t matches JsonTree::Array(items) && items.len() == list.len() && forall|i: int|
                0 <= i < list.len() ==> wire::gives(json_of(#[trigger] list[i]), items[i]),
            Err(e) => exists|i: int|
                0 <= i < list.len() && wire::fails(json_of(#[trigger] list[i]), e),
        },
        (exists|i: int| 0 <= i < list.len() && json_of(#[trigger] list[i]) is Err) ==> json_of(
            LuaTree::Table(list, pairs),
        ) is Err,
{
    lemma_list_items(list);
    if exists|i: int| 0 <= i < list.len() && json_of(#[trigger] list[i]) is Err {
        let i = choose|i: int| 0 <= i < list.len() && json_of(#[trigger] list[i]) is Err;
        if json_list(list) is Ok {
            assert(wire::gives(json_of(list[i]), json_list(list)->Ok_0[i]));
        }
    }
}

proof fn lemma_list_items(list: Seq<LuaTree>)
    ensures
        match json_list(list) {
            Ok(items) => items.len() == list.len() && forall|i: int|
                0 <= i < list.len() ==> wire::gives(json_of(#[trigger] list[i]), items[i]),
            Err(e) => exists|i: int|
                0 <= i < list.len() && wire::fails(json_of(#[trigger] list[i]), e),
        },
    decreases list.len(),
{
    if list.len() > 0 {
        let init = list.drop_last();
        lemma_list_items(init);
        assert(list[list.len() - 1] == list.last());
        match json_list(init) {
            Ok(before) => {
                if json_list(list) is Ok {
                    let items = json_list(list)->Ok_0;
                    assert forall|i: int| 0 <= i < list.len() implies wire::gives(
                        json_of(#[trigger] list[i]),
                        items[i],
                    ) by {
                        if i < init.len() {
                            assert(init[i] == list[i]);
                        }
                    }
                }
            },
            Err(e) => {
                let i = choose|i: int|
                    0 <= i < init.len() && wire::fails(json_of(#[trigger] init[i]), e);
                assert(list[i] == init[i]);
            },
        }
    }
}

/// Any other table becomes an object of those pairs whose key is a string, in order and each
/// key once with its last value; pairs with another key do not count.
pub proof fn law_other_table_is_an_object(pairs: Seq<(LuaTree, LuaTree)>, key: Seq<char>)
    ensures
        json_of(LuaTree::Table(Seq::empty(), pairs)) matches Ok(t) ==> {
            let named = pairs.filter(|p: (LuaTree, LuaTree)| p.0 is Str);
            exists|fields: Seq<(Seq<char>, JsonTree)>|
                {
                    &&& t == JsonTree::Object(#[trigger] json::put_fields(fields))
                    &&& fields.len() == named.len()
                    &&& forall|i: int|
                        0 <= i < named.len() ==> vstd::utf8::valid_utf8(
                            (#[trigger] named[i]).0->Str_0,
                        ) && fields[i].0 == vstd::utf8::decode_utf8(named[i].0->Str_0)
                            && wire::gives(json_of(named[i].1), fields[i].1)
                }
        },
{
    lemma_named_fields(pairs);
}

proof fn lemma_named_fields(pairs: Seq<(LuaTree, LuaTree)>)
    ensures
        json_fields(pairs) matches Ok(fields) ==> {
            let named = pairs.filter(|p: (LuaTree, LuaTree)| p.0 is Str);
            &&& fields.len() == named.len()
            &&& forall|i: int|
                0 <= i < named.len() ==> vstd::utf8::valid_utf8((#[trigger] named[i]).0->Str_0)
                    && fields[i].0 == vstd::utf8::decode_utf8(named[i].0->Str_0) && wire::gives(
                    json_of(named[i].1),
                    fields[i].1,
                )
        },
    decreases pairs.len(),
{
    reveal(Seq::filter);
    if pairs.len() > 0 {
        lemma_named_fields(pairs.drop_last());
        if json_fields(pairs) is Ok {
            let named = pairs.filter(|p: (LuaTree, LuaTree)| p.0 is Str);
            let before = pairs.drop_last().filter(|p: (LuaTree, LuaTree)| p.0 is Str);
            let fields = json_fields(pairs)->Ok_0;
            assert forall|i: int| 0 <= i < named.len() implies vstd::utf8::valid_utf8(
                (#[trigger] named[i]).0->Str_0,
            ) && fields[i].0 == vstd::utf8::decode_utf8(named[i].0->Str_0) && wire::gives(
                json_of(named[i].1),
                fields[i].1,
            ) by {
                if i < before.len() {
                    assert(named[i] == before[i]);
                }
            }
        }
    }
}

/// A Lua value stands for a JSON value of its own kind alone: `null` is nil, a text is its
/// bytes, an array a table with that length and no names, and an object one with its names
/// and no length, each value for its own.
pub proof fn law_json_values_in_lua(
    l: LuaTree,
    b: bool,
    i: int,
    s: Seq<char>,
    items: Seq<JsonTree>,
    fields: Seq<(Seq<char>, JsonTree)>,
)
    ensures
        stands_for(l, JsonTree::Null) <==> l == LuaTree::Nil,
        stands_for(l, JsonTree::Bool(b)) <==> l == LuaTree::Bool(b),
        i64::MIN <= i <= i64::MAX ==> (stands_for(l, JsonTree::Int(i)) <==> l == LuaTree::Int(i)),
        stands_for(l, JsonTree::Str(s)) <==> l == LuaTree::Str(vstd::utf8::encode_utf8(s)),
        stands_for(l, JsonTree::Array(items)) ==> (l matches LuaTree::Table(list, pairs)
            && list.len() == items.len() && pairs.len() == 0),
        stands_for(l, JsonTree::Object(fields)) ==> (l matches LuaTree::Table(list, pairs)
            && list.len() == 0 && pairs.len() == fields.len() && forall|k: int|
            0 <= k < fields.len() ==> (#[trigger] pairs[k]).0 == LuaTree::Str(
                vstd::utf8::encode_utf8(fields[k].0),
            )),
{
}

/// Two JSON values for which the same Lua value stands are equal, where Lua has a value of its
/// own for everything in them.
pub proof fn law_lua_tells_json_values_apart(l: LuaTree, a: JsonTree, b: JsonTree)
    requires
        lua_ready(a),
        lua_ready(b),
        stands_for(l, a),
        stands_for(l, b),
    ensures
        a == b,
{
    law_json_through_lua(a, l);
    law_json_through_lua(b, l);
}

/// Lua has a value of its own for every text and switch and every integer of 64 bits; for an
/// array that holds something, and for an object whose keys differ, exactly where it has one
/// for everything in it.
pub proof fn law_values_that_lua_has(
    s: Seq<char>,
    b: bool,
    i: int,
    items: Seq<JsonTree>,
    fields: Seq<(Seq<char>, JsonTree)>,
)
    ensures
        lua_ready(JsonTree::Str(s)) && lua_ready(JsonTree::Bool(b)),
        lua_ready(JsonTree::Int(i)) <==> -0x8000_0000_0000_0000 <= i <= 0x7fff_ffff_ffff_ffff,
        lua_ready(JsonTree::Array(items)) <==> items.len() > 0 && forall|k: int|
            0 <= k < items.len() ==> lua_ready(#[trigger] items[k]),
        lua_ready(JsonTree::Object(fields)) <==> (forall|k: int, l: int|
            0 <= k < l < fields.len() ==> (#[trigger] fields[k]).0 != (#[trigger] fields[l]).0)
            && forall|k: int| 0 <= k < fields.len() ==> lua_ready((#[trigger] fields[k]).1),
{
}

} // verus!
