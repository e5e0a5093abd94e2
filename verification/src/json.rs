//! JSON values, and their text as the `serde_json` crate reads and writes it.

use vstd::prelude::*;

use crate::text::same;

verus! {

/// The tree that a JSON value denotes. The keys of an object are distinct and ordered by
/// first appearance.
pub enum JsonTree {
    Null,
    Bool(bool),
    Int(int),
    Float(serde_json::Number),
    Str(Seq<char>),
    Array(Seq<JsonTree>),
    Object(Seq<(Seq<char>, JsonTree)>),
}

/// A JSON value.
///
/// An object is a list of fields. Where a key occurs more than once, the last value counts
/// and the key keeps its first place.
#[derive(Debug, PartialEq)]
pub enum Json {
    Null,
    Bool(bool),
    /// A non-negative integer.
    Uint(u64),
    /// An integer.
    Int(i64),
    /// Any other number.
    Float(serde_json::Number),
    Str(String),
    Array(Vec<Json>),
    Object(Vec<(String, Json)>),
}

/// Sets a field: a known key gets the new value in its old place, a new key is appended.
pub open spec fn put_field(
    fields: Seq<(Seq<char>, JsonTree)>,
    key: Seq<char>,
    value: JsonTree,
) -> Seq<(Seq<char>, JsonTree)>
    decreases fields.len(),
{
    if fields.len() == 0 {
        seq![(key, value)]
    } else if fields[0].0 == key {
        fields.update(0, (key, value))
    } else {
        seq![fields[0]] + put_field(fields.drop_first(), key, value)
    }
}

/// The fields that remain after setting each pair in turn.
pub open spec fn put_fields(pairs: Seq<(Seq<char>, JsonTree)>) -> Seq<(Seq<char>, JsonTree)>
    decreases pairs.len(),
{
    if pairs.len() == 0 {
        seq![]
    } else {
        put_field(put_fields(pairs.drop_last()), pairs.last().0, pairs.last().1)
    }
}

/// The value of a field, if the object has it.
pub open spec fn field_of(fields: Seq<(Seq<char>, JsonTree)>, key: Seq<char>) -> Option<JsonTree>
    decreases fields.len(),
{
    if fields.len() == 0 {
        None
    } else if fields[0].0 == key {
        Some(fields[0].1)
    } else {
        field_of(fields.drop_first(), key)
    }
}

/// Whether no key occurs twice.
pub open spec fn distinct_keys(fields: Seq<(Seq<char>, JsonTree)>) -> bool {
    forall|i: int, j: int|
        0 <= i < j < fields.len() ==> (#[trigger] fields[i]).0 != (#[trigger] fields[j]).0
}

impl JsonTree {
    /// The field of an object; any other value has none.
    pub open spec fn get(self, key: Seq<char>) -> Option<JsonTree> {
        match self {
            JsonTree::Object(fields) => field_of(fields, key),
            _ => None,
        }
    }

    /// Whether the tree holds no fractional number and nests at most `depth` arrays and
    /// objects inside each other.
    pub open spec fn plain_within(self, depth: int) -> bool
        decreases self,
    {
        match self {
            JsonTree::Float(_) => false,
            JsonTree::Array(items) => depth > 0 && forall|i: int|
                0 <= i < items.len() ==> (#[trigger] items[i]).plain_within(depth - 1),
            JsonTree::Object(fields) => depth > 0 && forall|i: int|
                0 <= i < fields.len() ==> (#[trigger] fields[i]).1.plain_within(depth - 1),
            _ => true,
        }
    }
}

/// The most arrays and objects inside each other that `serde_json` reads.
pub open spec fn max_nesting() -> int {
    127
}

impl Json {
    /// The tree that the value denotes.
    pub open spec fn tree(self) -> JsonTree
        decreases self,
    {
        match self {
            Json::Null => JsonTree::Null,
            Json::Bool(b) => JsonTree::Bool(b),
            Json::Uint(u) => JsonTree::Int(u as int),
            Json::Int(i) => JsonTree::Int(i as int),
            Json::Float(n) => number_tree(n),
            Json::Str(s) => JsonTree::Str(s@),
            Json::Array(items) => JsonTree::Array(trees(items@)),
            Json::Object(fields) => JsonTree::Object(put_fields(pair_trees(fields@))),
        }
    }
}

/// The trees of a list of values.
pub open spec fn trees(items: Seq<Json>) -> Seq<JsonTree>
    decreases items,
{
    if items.len() == 0 {
        seq![]
    } else {
        trees(items.drop_last()).push(items.last().tree())
    }
}

/// The keys and trees of a list of named values.
pub open spec fn pair_trees(pairs: Seq<(String, Json)>) -> Seq<(Seq<char>, JsonTree)>
    decreases pairs,
{
    if pairs.len() == 0 {
        seq![]
    } else {
        pair_trees(pairs.drop_last()).push((pairs.last().0@, pairs.last().1.tree()))
    }
}

/// The trees of a list, item by item.
pub broadcast proof fn lemma_trees(items: Seq<Json>)
    ensures
        #[trigger] trees(items).len() == items.len(),
        forall|i: int| 0 <= i < items.len() ==> #[trigger] trees(items)[i] == items[i].tree(),
    decreases items.len(),
{
    if items.len() > 0 {
        lemma_trees(items.drop_last());
    }
}

/// The keys and trees of a list, item by item.
pub broadcast proof fn lemma_pair_trees(pairs: Seq<(String, Json)>)
    ensures
        #[trigger] pair_trees(pairs).len() == pairs.len(),
        forall|i: int|
            0 <= i < pairs.len() ==> #[trigger] pair_trees(pairs)[i] == (
                pairs[i].0@,
                pairs[i].1.tree(),
            ),
    decreases pairs.len(),
{
    if pairs.len() > 0 {
        lemma_pair_trees(pairs.drop_last());
    }
}

/// Setting a field sets that field and no other.
pub proof fn lemma_put_field_lookup(
    fields: Seq<(Seq<char>, JsonTree)>,
    key: Seq<char>,
    value: JsonTree,
    other: Seq<char>,
)
    ensures
        field_of(put_field(fields, key, value), other) == if other == key {
            Some(value)
        } else {
            field_of(fields, other)
        },
    decreases fields.len(),
{
    reveal_with_fuel(field_of, 2);
    let after = put_field(fields, key, value);
    if fields.len() == 0 {
        assert(after.drop_first() =~= seq![]);
    } else if fields[0].0 == key {
        assert(after.drop_first() =~= fields.drop_first());
    } else {
        lemma_put_field_lookup(fields.drop_first(), key, value, other);
        assert(after.drop_first() =~= put_field(fields.drop_first(), key, value));
    }
}

/// A field whose key is new is appended.
pub proof fn lemma_put_field_new(
    fields: Seq<(Seq<char>, JsonTree)>,
    key: Seq<char>,
    value: JsonTree,
)
    requires
        forall|i: int| 0 <= i < fields.len() ==> (#[trigger] fields[i]).0 != key,
    ensures
        put_field(fields, key, value) == fields.push((key, value)),
    decreases fields.len(),
{
    if fields.len() == 0 {
        assert(put_field(fields, key, value) =~= fields.push((key, value)));
    } else {
        let rest = fields.drop_first();
        assert forall|i: int| 0 <= i < rest.len() implies (#[trigger] rest[i]).0 != key by {
            assert(rest[i] == fields[i + 1]);
        }
        lemma_put_field_new(rest, key, value);
        assert(seq![fields[0]] + rest.push((key, value)) =~= fields.push((key, value)));
    }
}

/// Fields with distinct keys are kept as they are.
pub proof fn lemma_put_fields_distinct(pairs: Seq<(Seq<char>, JsonTree)>)
    requires
        distinct_keys(pairs),
    ensures
        put_fields(pairs) == pairs,
    decreases pairs.len(),
{
    if pairs.len() == 0 {
        assert(pairs =~= seq![]);
    } else {
        let init = pairs.drop_last();
        assert forall|i: int, j: int| 0 <= i < j < init.len() implies (#[trigger] init[i]).0 != (
        #[trigger] init[j]).0 by {
            assert(init[i] == pairs[i] && init[j] == pairs[j]);
        }
        lemma_put_fields_distinct(init);
        assert forall|i: int| 0 <= i < init.len() implies (#[trigger] init[i]).0
            != pairs.last().0 by {
            assert(init[i] == pairs[i]);
        }
        lemma_put_field_new(init, pairs.last().0, pairs.last().1);
        assert(init.push((pairs.last().0, pairs.last().1)) =~= pairs);
    }
}

/// Setting a known field changes the value at its first place.
proof fn lemma_put_field_at(
    fields: Seq<(Seq<char>, JsonTree)>,
    key: Seq<char>,
    value: JsonTree,
    k: int,
)
    requires
        0 <= k < fields.len(),
        fields[k].0 == key,
        forall|i: int| 0 <= i < k ==> (#[trigger] fields[i]).0 != key,
    ensures
        put_field(fields, key, value) == fields.update(k, (key, value)),
    decreases fields.len(),
{
    if k > 0 {
        let rest = fields.drop_first();
        assert forall|i: int| 0 <= i < k - 1 implies (#[trigger] rest[i]).0 != key by {
            assert(rest[i] == fields[i + 1]);
        }
        assert(fields[0].0 != key);
        lemma_put_field_at(rest, key, value, k - 1);
        assert(seq![fields[0]] + rest.update(k - 1, (key, value)) =~= fields.update(
            k,
            (key, value),
        ));
    }
}

/// A JSON number of the `serde_json` crate.
#[verifier::external_type_specification]
#[verifier::external_body]
pub struct ExNumber(serde_json::Number);

/// A JSON value of the `serde_json` crate.
#[verifier::external_type_specification]
#[verifier::external_body]
pub struct ExValue(serde_json::Value);

/// The integer that a `serde_json` number holds, if it holds one.
pub uninterp spec fn number_value(n: serde_json::Number) -> Option<int>;

/// The tree of a `serde_json` number.
pub open spec fn number_tree(n: serde_json::Number) -> JsonTree {
    match number_value(n) {
        Some(i) => JsonTree::Int(i),
        None => JsonTree::Float(n),
    }
}

/// The contents of a `serde_json` value.
pub uninterp spec fn value_tree(v: serde_json::Value) -> JsonTree;

/// The compact text that `serde_json` writes for a value.
pub uninterp spec fn json_text(t: JsonTree) -> Seq<char>;

/// What `serde_json` reads from bytes: a value, or the text of its error.
pub uninterp spec fn parsed_json(bytes: Seq<u8>) -> Result<JsonTree, Seq<char>>;

/// What `serde_json` reads from text: a value, or the text of its error.
pub uninterp spec fn parsed_json_text(text: Seq<char>) -> Result<JsonTree, Seq<char>>;

/// A read that gave a value.
pub open spec fn read_ok(t: JsonTree) -> Result<JsonTree, Seq<char>> {
    Ok(t)
}

/// A read that failed with an error of this text.
pub open spec fn read_error(e: Seq<char>) -> Result<JsonTree, Seq<char>> {
    Err(e)
}

/// `serde_json::Number::as_u64` gives the integer of the number unless it is negative.
pub assume_specification[ serde_json::Number::as_u64 ](n: &serde_json::Number) -> (r: Option<u64>)
    ensures
        match r {
            Some(u) => number_value(*n) == Some(u as int),
            None => number_value(*n) matches Some(i) ==> i < 0,
        },
;

/// `serde_json::Number::as_i64` gives the integer of the number unless it is too large.
pub assume_specification[ serde_json::Number::as_i64 ](n: &serde_json::Number) -> (r: Option<i64>)
    ensures
        match r {
            Some(i) => number_value(*n) == Some(i as int),
            None => number_value(*n) matches Some(i) ==> i > i64::MAX,
        },
;

/// `serde_json::Number::clone` copies the number.
pub assume_specification[ <serde_json::Number as Clone>::clone ](n: &serde_json::Number) -> (r:
    serde_json::Number)
    ensures
        r == *n,
;

/// `serde_json::Number::from` of a `u64` holds that integer.
#[verifier::external_body]
pub(crate) fn number_of_u64(u: u64) -> (n: serde_json::Number)
    ensures
        number_value(n) == Some(u as int),
{
    serde_json::Number::from(u)
}

/// `serde_json::Number::from` of an `i64` holds that integer.
#[verifier::external_body]
fn number_of_i64(i: i64) -> (n: serde_json::Number)
    ensures
        number_value(n) == Some(i as int),
{
    serde_json::Number::from(i)
}

/// The outermost layer of a `serde_json` value.
pub enum JsonNode {
    Null,
    Bool(bool),
    Number(serde_json::Number),
    Str(String),
    Array(Vec<serde_json::Value>),
    Object(Vec<(String, serde_json::Value)>),
}

/// The keys and contents of the fields of a layer.
pub open spec fn node_fields(fields: Seq<(String, serde_json::Value)>) -> Seq<
    (Seq<char>, JsonTree),
> {
    Seq::new(fields.len(), |i: int| (fields[i].0@, value_tree(fields[i].1)))
}

impl JsonNode {
    /// The tree of a layer, over the contents of the values below it.
    pub open spec fn tree(self) -> JsonTree {
        match self {
            JsonNode::Null => JsonTree::Null,
            JsonNode::Bool(b) => JsonTree::Bool(b),
            JsonNode::Number(n) => number_tree(n),
            JsonNode::Str(s) => JsonTree::Str(s@),
            JsonNode::Array(items) => JsonTree::Array(
                Seq::new(items@.len(), |i: int| value_tree(items@[i])),
            ),
            JsonNode::Object(fields) => JsonTree::Object(put_fields(node_fields(fields@))),
        }
    }
}

/// Takes a `serde_json::Value` apart, one layer. The fields of its map come in their order,
/// and no key comes twice.
#[verifier::external_body]
fn open_value(v: serde_json::Value) -> (node: JsonNode)
    ensures
        node.tree() == value_tree(v),
        node matches JsonNode::Object(fields) ==> distinct_keys(node_fields(fields@)),
{
    match v {
        serde_json::Value::Null => JsonNode::Null,
        serde_json::Value::Bool(b) => JsonNode::Bool(b),
        serde_json::Value::Number(n) => JsonNode::Number(n),
        serde_json::Value::String(s) => JsonNode::Str(s),
        serde_json::Value::Array(items) => JsonNode::Array(items),
        serde_json::Value::Object(map) => JsonNode::Object(map.into_iter().collect()),
    }
}

/// Builds a `serde_json::Value` from one layer. Collecting the fields into its map sets
/// them in turn.
#[verifier::external_body]
fn close_value(node: JsonNode) -> (v: serde_json::Value)
    ensures
        value_tree(v) == node.tree(),
{
    match node {
        JsonNode::Null => serde_json::Value::Null,
        JsonNode::Bool(b) => serde_json::Value::Bool(b),
        JsonNode::Number(n) => serde_json::Value::Number(n),
        JsonNode::Str(s) => serde_json::Value::String(s),
        JsonNode::Array(items) => serde_json::Value::Array(items),
        JsonNode::Object(fields) => serde_json::Value::Object(fields.into_iter().collect()),
    }
}

/// `serde_json::to_string` of a `serde_json::Value` succeeds and writes its compact text.
/// Reading the text back gives the value, where it holds no fractional number and does not
/// nest too deep.
#[verifier::external_body]
fn value_to_string(v: &serde_json::Value) -> (r: Result<String, String>)
    ensures
        r is Ok,
        r->Ok_0@ == json_text(value_tree(*v)),
        value_tree(*v).plain_within(max_nesting()) ==> parsed_json_text(r->Ok_0@)
            == read_ok(value_tree(*v)),
{
    serde_json::to_string(v).map_err(|e| e.to_string())
}

/// `serde_json::to_vec` of a `serde_json::Value` succeeds and writes the bytes of its
/// compact text. Reading the bytes back gives the value, where it holds no fractional
/// number and does not nest too deep.
#[verifier::external_body]
fn value_to_vec(v: &serde_json::Value) -> (r: Result<Vec<u8>, String>)
    ensures
        r is Ok,
        r->Ok_0@ == vstd::utf8::encode_utf8(json_text(value_tree(*v))),
        value_tree(*v).plain_within(max_nesting()) ==> parsed_json(r->Ok_0@) == read_ok(
            value_tree(*v),
        ),
{
    serde_json::to_vec(v).map_err(|e| e.to_string())
}

/// `serde_json::from_slice` reads a value from bytes, or fails with an error that has a text.
#[verifier::external_body]
fn value_from_slice(bytes: &[u8]) -> (r: Result<serde_json::Value, String>)
    ensures
        match r {
            Ok(v) => parsed_json(bytes@) == read_ok(value_tree(v)),
            Err(e) => parsed_json(bytes@) == read_error(e@),
        },
{
    serde_json::from_slice(bytes).map_err(|e| e.to_string())
}

/// `serde_json::from_str` reads a value from text, or fails with an error that has a text.
#[verifier::external_body]
fn value_from_str(text: &str) -> (r: Result<serde_json::Value, String>)
    ensures
        match r {
            Ok(v) => parsed_json_text(text@) == read_ok(value_tree(v)),
            Err(e) => parsed_json_text(text@) == read_error(e@),
        },
{
    serde_json::from_str(text).map_err(|e| e.to_string())
}

/// Converts a `serde_json` value.
fn from_value(v: serde_json::Value) -> (j: Json)
    ensures
        j.tree() == value_tree(v),
    decreases value_tree(v),
{
    let ghost whole = value_tree(v);
    match open_value(v) {
        JsonNode::Null => Json::Null,
        JsonNode::Bool(b) => Json::Bool(b),
        JsonNode::Number(n) => match n.as_u64() {
            Some(u) => Json::Uint(u),
            None => match n.as_i64() {
                Some(i) => Json::Int(i),
                None => Json::Float(n),
            },
        },
        JsonNode::Str(s) => Json::Str(s),
        JsonNode::Array(mut values) => {
            let ghost all = values@;
            let mut items: Vec<Json> = Vec::new();
            while values.len() > 0
                invariant
                    whole == value_tree(v),
                    whole == JsonTree::Array(Seq::new(all.len(), |i: int| value_tree(all[i]))),
                    values@.len() + items@.len() == all.len(),
                    values@ == all.skip(items@.len() as int),
                    forall|i: int|
                        0 <= i < items@.len() ==> (#[trigger] items@[i]).tree() == value_tree(
                            all[i],
                        ),
                decreases values.len(),
            {
                proof {
                    let k = items@.len() as int;
                    assert(values@[0] == all[k]);
                    assert(whole->Array_0[k] == value_tree(all[k]));
                    assert(decreases_to!(whole => whole->Array_0[k]));
                }
                let head = values.remove(0);
                items.push(from_value(head));
            }
            proof {
                lemma_trees(items@);
                assert(trees(items@) =~= Seq::new(all.len(), |i: int| value_tree(all[i])));
            }
            Json::Array(items)
        },
        JsonNode::Object(mut pairs) => {
            let ghost all = pairs@;
            proof {
                lemma_put_fields_distinct(node_fields(all));
            }
            let mut fields: Vec<(String, Json)> = Vec::new();
            while pairs.len() > 0
                invariant
                    whole == value_tree(v),
                    whole == JsonTree::Object(node_fields(all)),
                    pairs@.len() + fields@.len() == all.len(),
                    pairs@ == all.skip(fields@.len() as int),
                    forall|i: int|
                        0 <= i < fields@.len() ==> (#[trigger] fields@[i]).0@ == all[i].0@
                            && fields@[i].1.tree() == value_tree(all[i].1),
                decreases pairs.len(),
            {
                proof {
                    let k = fields@.len() as int;
                    assert(pairs@[0] == all[k]);
                    assert(whole->Object_0[k].1 == value_tree(all[k].1));
                    assert(decreases_to!(whole => whole->Object_0[k].1));
                }
                let (key, head) = pairs.remove(0);
                fields.push((key, from_value(head)));
            }
            proof {
                lemma_pair_trees(fields@);
                assert(pair_trees(fields@) =~= node_fields(all));
            }
            Json::Object(fields)
        },
    }
}

/// Converts to a `serde_json` value.
fn to_value(j: &Json) -> (v: serde_json::Value)
    ensures
        value_tree(v) == j.tree(),
    decreases j,
{
    match j {
        Json::Null => close_value(JsonNode::Null),
        Json::Bool(b) => close_value(JsonNode::Bool(*b)),
        Json::Uint(u) => close_value(JsonNode::Number(number_of_u64(*u))),
        Json::Int(i) => close_value(JsonNode::Number(number_of_i64(*i))),
        Json::Float(n) => close_value(JsonNode::Number(n.clone())),
        Json::Str(s) => close_value(JsonNode::Str(s.clone())),
        Json::Array(items) => {
            let mut values: Vec<serde_json::Value> = Vec::new();
            for i in 0..items.len()
                invariant
                    *j == Json::Array(*items),
                    values@.len() == i,
                    forall|k: int|
                        0 <= k < i ==> value_tree(#[trigger] values@[k]) == items@[k].tree(),
            {
                assert(decreases_to!(*j => j->Array_0));
                assert(decreases_to!(items => items@));
                assert(decreases_to!(items@ => items@[i as int]));
                values.push(to_value(&items[i]));
            }
            proof {
                lemma_trees(items@);
                assert(trees(items@) =~= Seq::new(values@.len(), |k: int| value_tree(values@[k])));
            }
            close_value(JsonNode::Array(values))
        },
        Json::Object(fields) => {
            let mut pairs: Vec<(String, serde_json::Value)> = Vec::new();
            for i in 0..fields.len()
                invariant
                    *j == Json::Object(*fields),
                    pairs@.len() == i,
                    forall|k: int|
                        0 <= k < i ==> (#[trigger] pairs@[k]).0@ == fields@[k].0@ && value_tree(
                            pairs@[k].1,
                        ) == fields@[k].1.tree(),
            {
                assert(decreases_to!(*j => j->Object_0));
                assert(decreases_to!(fields => fields@));
                assert(decreases_to!(fields@ => fields@[i as int]));
                assert(decreases_to!(fields@[i as int] => fields@[i as int].1));
                pairs.push((fields[i].0.clone(), to_value(&fields[i].1)));
            }
            proof {
                lemma_pair_trees(fields@);
                assert(pair_trees(fields@) =~= node_fields(pairs@));
            }
            close_value(JsonNode::Object(pairs))
        },
    }
}

/// The value of the last pair with a key.
pub open spec fn last_of(pairs: Seq<(Seq<char>, JsonTree)>, key: Seq<char>) -> Option<JsonTree>
    decreases pairs.len(),
{
    if pairs.len() == 0 {
        None
    } else if pairs.last().0 == key {
        Some(pairs.last().1)
    } else {
        last_of(pairs.drop_last(), key)
    }
}

/// After setting pairs in turn, a field has the value that was set last.
pub proof fn lemma_last_wins(pairs: Seq<(Seq<char>, JsonTree)>, key: Seq<char>)
    ensures
        field_of(put_fields(pairs), key) == last_of(pairs, key),
    decreases pairs.len(),
{
    if pairs.len() > 0 {
        lemma_last_wins(pairs.drop_last(), key);
        lemma_put_field_lookup(
            put_fields(pairs.drop_last()),
            pairs.last().0,
            pairs.last().1,
            key,
        );
    }
}

/// A field has the value of the first pair with its key, and none where no pair has it.
pub proof fn law_first_field_counts(fields: Seq<(Seq<char>, JsonTree)>, key: Seq<char>)
    ensures
        field_of(fields, key) is None <==> forall|i: int|
            0 <= i < fields.len() ==> (#[trigger] fields[i]).0 != key,
        forall|i: int|
            0 <= i < fields.len() && (#[trigger] fields[i]).0 == key && (forall|j: int|
                0 <= j < i ==> (#[trigger] fields[j]).0 != key) ==> field_of(fields, key) == Some(
                fields[i].1,
            ),
    decreases fields.len(),
{
    if fields.len() > 0 && fields[0].0 != key {
        let rest = fields.drop_first();
        law_first_field_counts(rest, key);
        assert forall|i: int|
            0 <= i < fields.len() && (#[trigger] fields[i]).0 == key && (forall|j: int|
                0 <= j < i ==> (#[trigger] fields[j]).0 != key) implies field_of(fields, key)
            == Some(fields[i].1) by {
            assert(rest[i - 1] == fields[i]);
            assert forall|j: int| 0 <= j < i - 1 implies (#[trigger] rest[j]).0 != key by {
                assert(rest[j] == fields[j + 1]);
            }
        }
        if field_of(fields, key) is None {
            assert forall|i: int| 0 <= i < fields.len() implies (#[trigger] fields[i]).0 != key by {
                if i > 0 {
                    assert(rest[i - 1] == fields[i]);
                }
            }
        } else {
            let i = choose|i: int| 0 <= i < rest.len() && (#[trigger] rest[i]).0 == key;
            assert(fields[i + 1] == rest[i]);
        }
    } else if fields.len() > 0 {
        assert(fields[0].0 == key);
    }
}

/// Of pairs that are set in turn, the last one with a key gives the field its value, and a
/// key that no pair has is no field.
pub proof fn law_last_pair_counts(pairs: Seq<(Seq<char>, JsonTree)>, key: Seq<char>)
    ensures
        field_of(put_fields(pairs), key) is None <==> forall|i: int|
            0 <= i < pairs.len() ==> (#[trigger] pairs[i]).0 != key,
        forall|i: int|
            0 <= i < pairs.len() && (#[trigger] pairs[i]).0 == key && (forall|j: int|
                i < j < pairs.len() ==> (#[trigger] pairs[j]).0 != key) ==> field_of(
                put_fields(pairs),
                key,
            ) == Some(pairs[i].1),
{
    lemma_last_wins(pairs, key);
    lemma_last_of(pairs, key);
}

proof fn lemma_last_of(pairs: Seq<(Seq<char>, JsonTree)>, key: Seq<char>)
    ensures
        last_of(pairs, key) is None <==> forall|i: int|
            0 <= i < pairs.len() ==> (#[trigger] pairs[i]).0 != key,
        forall|i: int|
            0 <= i < pairs.len() && (#[trigger] pairs[i]).0 == key && (forall|j: int|
                i < j < pairs.len() ==> (#[trigger] pairs[j]).0 != key) ==> last_of(pairs, key)
                == Some(pairs[i].1),
    decreases pairs.len(),
{
    if pairs.len() > 0 {
        let n = pairs.len() - 1;
        assert(pairs[n] == pairs.last());
        if pairs[n].0 != key {
            let init = pairs.drop_last();
            lemma_last_of(init, key);
            assert forall|i: int|
                0 <= i < pairs.len() && (#[trigger] pairs[i]).0 == key && (forall|j: int|
                    i < j < pairs.len() ==> (#[trigger] pairs[j]).0 != key) implies last_of(
                pairs,
                key,
            ) == Some(pairs[i].1) by {
                assert(init[i] == pairs[i]);
                assert forall|j: int| i < j < init.len() implies (#[trigger] init[j]).0 != key by {
                    assert(init[j] == pairs[j]);
                }
            }
            if last_of(pairs, key) is None {
                assert forall|i: int| 0 <= i < pairs.len() implies (#[trigger] pairs[i]).0
                    != key by {
                    if i < n {
                        assert(init[i] == pairs[i]);
                    }
                }
            } else {
                let i = choose|i: int| 0 <= i < init.len() && (#[trigger] init[i]).0 == key;
                assert(pairs[i] == init[i]);
            }
        }
    }
}

/// One more pair changes the value of its field in place where there is one, and otherwise
/// adds a field at the end; the fields before it stay. No key occurs twice.
pub proof fn law_one_more_pair(
    pairs: Seq<(Seq<char>, JsonTree)>,
    key: Seq<char>,
    value: JsonTree,
)
    ensures
        distinct_keys(put_fields(pairs)),
        (forall|i: int| 0 <= i < pairs.len() ==> (#[trigger] pairs[i]).0 != key) ==> put_fields(
            pairs.push((key, value)),
        ) == put_fields(pairs).push((key, value)),
        forall|i: int|
            0 <= i < put_fields(pairs).len() && (#[trigger] put_fields(pairs)[i]).0 == key
                ==> put_fields(pairs.push((key, value))) == put_fields(pairs).update(
                i,
                (key, value),
            ),
    decreases pairs.len(),
{
    let fields = put_fields(pairs);
    let more = pairs.push((key, value));
    assert(more.drop_last() =~= pairs);
    assert(more.last() == (key, value));
    if pairs.len() > 0 {
        let init = pairs.drop_last();
        let (k, v) = pairs.last();
        law_one_more_pair(init, k, v);
        let before = put_fields(init);
        assert(pairs =~= init.push((k, v)));
        law_first_field_counts(before, k);
        law_last_pair_counts(init, k);
        if field_of(before, k) is None {
            assert(fields == before.push((k, v)));
        } else {
            let i = choose|i: int| 0 <= i < before.len() && (#[trigger] before[i]).0 == k;
            assert(fields == before.update(i, (k, v)));
        }
    }
    law_first_field_counts(fields, key);
    law_last_pair_counts(pairs, key);
    if forall|i: int| 0 <= i < pairs.len() ==> (#[trigger] pairs[i]).0 != key {
        lemma_put_field_new(fields, key, value);
    }
    assert forall|i: int|
        0 <= i < fields.len() && (#[trigger] fields[i]).0 == key implies put_fields(more)
        == fields.update(i, (key, value)) by {
        lemma_put_field_at(fields, key, value, i);
    }
}

/// Sets a field in a list of fields.
fn put(out: &mut Vec<(String, Json)>, key: String, value: Json)
    ensures
        pair_trees(final(out)@) == put_field(pair_trees(old(out)@), key@, value.tree()),
{
    let ghost before = pair_trees(out@);
    proof {
        lemma_pair_trees(out@);
    }
    let mut k: usize = 0;
    while k < out.len()
        invariant
            out@ == old(out)@,
            before == pair_trees(out@),
            before.len() == out@.len(),
            forall|j: int|
                0 <= j < out@.len() ==> #[trigger] before[j] == (out@[j].0@, out@[j].1.tree()),
            k <= out@.len(),
            forall|j: int| 0 <= j < k ==> (#[trigger] before[j]).0 != key@,
        decreases out@.len() - k,
    {
        if same(out[k].0.as_str(), key.as_str()) {
            proof {
                lemma_put_field_at(before, key@, value.tree(), k as int);
            }
            out.set(k, (key, value));
            proof {
                lemma_pair_trees(out@);
                assert(pair_trees(out@) =~= before.update(k as int, (key@, value.tree())));
            }
            return;
        }
        k = k + 1;
    }
    proof {
        lemma_put_field_new(before, key@, value.tree());
    }
    out.push((key, value));
    proof {
        lemma_pair_trees(out@);
        assert(pair_trees(out@) =~= before.push((key@, value.tree())));
    }
}

/// The last value of a list that has the given name.
fn find_last<'a>(pairs: &'a [(String, Json)], key: &str) -> (r: Option<&'a Json>)
    ensures
        match r {
            Some(j) => last_of(pair_trees(pairs@), key@) == Some(j.tree()),
            None => last_of(pair_trees(pairs@), key@) is None,
        },
{
    let mut i: usize = pairs.len();
    let ghost all = pair_trees(pairs@);
    proof {
        lemma_pair_trees(pairs@);
        assert(all.take(i as int) =~= all);
    }
    while i > 0
        invariant
            i <= pairs@.len(),
            all == pair_trees(pairs@),
            all.len() == pairs@.len(),
            forall|k: int|
                0 <= k < pairs@.len() ==> #[trigger] all[k] == (pairs@[k].0@, pairs@[k].1.tree()),
            last_of(all, key@) == last_of(all.take(i as int), key@),
        decreases i,
    {
        proof {
            assert(all.take(i as int).last() == all[i - 1]);
            assert(all.take(i as int).drop_last() =~= all.take(i - 1));
        }
        i = i - 1;
        if same(pairs[i].0.as_str(), key) {
            return Some(&pairs[i].1);
        }
    }
    None
}

impl Json {
    /// A copy of the value.
    pub fn copy(&self) -> (j: Json)
        ensures
            j.tree() == self.tree(),
        decreases self,
    {
        match self {
            Json::Null => Json::Null,
            Json::Bool(b) => Json::Bool(*b),
            Json::Uint(u) => Json::Uint(*u),
            Json::Int(i) => Json::Int(*i),
            Json::Float(n) => Json::Float(n.clone()),
            Json::Str(s) => Json::Str(s.clone()),
            Json::Array(items) => {
                let mut out: Vec<Json> = Vec::new();
                for i in 0..items.len()
                    invariant
                        *self == Json::Array(*items),
                        out@.len() == i,
                        forall|k: int|
                            0 <= k < i ==> (#[trigger] out@[k]).tree() == items@[k].tree(),
                {
                    assert(decreases_to!(*self => self->Array_0));
                    assert(decreases_to!(items => items@));
                    assert(decreases_to!(items@ => items@[i as int]));
                    out.push(items[i].copy());
                }
                proof {
                    lemma_trees(items@);
                    lemma_trees(out@);
                    assert(trees(items@) =~= trees(out@));
                }
                Json::Array(out)
            },
            Json::Object(fields) => {
                let mut out: Vec<(String, Json)> = Vec::new();
                for i in 0..fields.len()
                    invariant
                        *self == Json::Object(*fields),
                        out@.len() == i,
                        forall|k: int|
                            0 <= k < i ==> (#[trigger] out@[k]).0@ == fields@[k].0@
                                && out@[k].1.tree() == fields@[k].1.tree(),
                {
                    assert(decreases_to!(*self => self->Object_0));
                    assert(decreases_to!(fields => fields@));
                    assert(decreases_to!(fields@ => fields@[i as int]));
                    assert(decreases_to!(fields@[i as int] => fields@[i as int].1));
                    out.push((fields[i].0.clone(), fields[i].1.copy()));
                }
                proof {
                    lemma_pair_trees(fields@);
                    lemma_pair_trees(out@);
                    assert(pair_trees(fields@) =~= pair_trees(out@));
                }
                Json::Object(out)
            },
        }
    }

    /// The field of an object. Any other value has no fields.
    pub fn get(&self, key: &str) -> (r: Option<&Json>)
        ensures
            match r {
                Some(j) => self.tree().get(key@) == Some(j.tree()),
                None => self.tree().get(key@) is None,
            },
    {
        match self {
            Json::Object(fields) => {
                proof {
                    lemma_last_wins(pair_trees(fields@), key@);
                }
                find_last(fields.as_slice(), key)
            },
            _ => None,
        }
    }

    /// The fields of an object, every key once.
    pub fn fields(&self) -> (r: Option<Vec<(String, Json)>>)
        ensures
            match r {
                Some(f) => self.tree() == JsonTree::Object(pair_trees(f@)),
                None => !(self.tree() is Object),
            },
    {
        match self {
            Json::Object(fields) => {
                let ghost all = pair_trees(fields@);
                let mut out: Vec<(String, Json)> = Vec::new();
                proof {
                    lemma_pair_trees(fields@);
                    lemma_pair_trees(out@);
                    assert(all.take(0) =~= seq![]);
                    assert(pair_trees(out@) =~= put_fields(all.take(0)));
                }
                for i in 0..fields.len()
                    invariant
                        all == pair_trees(fields@),
                        all.len() == fields@.len(),
                        forall|k: int|
                            0 <= k < fields@.len() ==> #[trigger] all[k] == (
                                fields@[k].0@,
                                fields@[k].1.tree(),
                            ),
                        pair_trees(out@) == put_fields(all.take(i as int)),
                {
                    proof {
                        assert(all.take(i + 1).drop_last() =~= all.take(i as int));
                        assert(all.take(i + 1).last() == all[i as int]);
                    }
                    put(&mut out, fields[i].0.clone(), fields[i].1.copy());
                }
                assert(all.take(all.len() as int) =~= all);
                Some(out)
            },
            _ => None,
        }
    }

    /// The text of a string value.
    pub fn as_str(&self) -> (r: Option<&str>)
        ensures
            match r {
                Some(s) => self.tree() == JsonTree::Str(s@),
                None => !(self.tree() is Str),
            },
    {
        match self {
            Json::Str(s) => Some(s.as_str()),
            _ => None,
        }
    }

    /// Whether the value is an object.
    pub fn is_object(&self) -> (r: bool)
        ensures
            r == (self.tree() is Object),
    {
        match self {
            Json::Object(_) => true,
            _ => false,
        }
    }

    /// The compact JSON text of the value.
    pub fn to_text(&self) -> (s: String)
        ensures
            s@ == json_text(self.tree()),
            self.tree().plain_within(max_nesting()) ==> parsed_json_text(s@) == read_ok(
                self.tree(),
            ),
    {
        match value_to_string(&to_value(self)) {
            Ok(s) => s,
            Err(e) => e,
        }
    }

    /// The bytes of the compact JSON text of the value.
    pub fn to_bytes(&self) -> (b: Vec<u8>)
        ensures
            b@ == vstd::utf8::encode_utf8(json_text(self.tree())),
            self.tree().plain_within(max_nesting()) ==> parsed_json(b@) == read_ok(self.tree()),
    {
        match value_to_vec(&to_value(self)) {
            Ok(b) => b,
            Err(_) => Vec::new(),
        }
    }

    /// Reads a value from bytes, or gives the text of the reader's error.
    pub fn parse(bytes: &[u8]) -> (r: Result<Json, String>)
        ensures
            match r {
                Ok(j) => parsed_json(bytes@) == read_ok(j.tree()),
                Err(e) => parsed_json(bytes@) == read_error(e@),
            },
    {
        match value_from_slice(bytes) {
            Ok(v) => Ok(from_value(v)),
            Err(e) => Err(e),
        }
    }

    /// Reads a value from text, or gives the text of the reader's error.
    pub fn parse_text(text: &str) -> (r: Result<Json, String>)
        ensures
            match r {
                Ok(j) => parsed_json_text(text@) == read_ok(j.tree()),
                Err(e) => parsed_json_text(text@) == read_error(e@),
            },
    {
        match value_from_str(text) {
            Ok(v) => Ok(from_value(v)),
            Err(e) => Err(e),
        }
    }
}

/// Which values can be read back: every text, switch, integer and `null`, however deep they
/// lie, and an array or an object exactly where all that it holds can, one level less deep.
pub proof fn law_plain_values(
    s: Seq<char>,
    b: bool,
    i: int,
    items: Seq<JsonTree>,
    fields: Seq<(Seq<char>, JsonTree)>,
    depth: int,
)
    ensures
        JsonTree::Str(s).plain_within(depth) && JsonTree::Bool(b).plain_within(depth),
        JsonTree::Int(i).plain_within(depth) && JsonTree::Null.plain_within(depth),
        JsonTree::Array(items).plain_within(depth) <==> depth > 0 && forall|k: int|
            0 <= k < items.len() ==> (#[trigger] items[k]).plain_within(depth - 1),
        JsonTree::Object(fields).plain_within(depth) <==> depth > 0 && forall|k: int|
            0 <= k < fields.len() ==> (#[trigger] fields[k]).1.plain_within(depth - 1),
        max_nesting() == 127,
{
    reveal_with_fuel(JsonTree::plain_within, 2);
    let array = JsonTree::Array(items);
    if array.plain_within(depth) {
        assert forall|k: int| 0 <= k < items.len() implies (#[trigger] items[k]).plain_within(
            depth - 1,
        ) by {
            assert(array->Array_0[k] == items[k]);
        }
    }
    let object = JsonTree::Object(fields);
    if object.plain_within(depth) {
        assert forall|k: int| 0 <= k < fields.len() implies (#[trigger] fields[k]).1.plain_within(
            depth - 1,
        ) by {
            assert(object->Object_0[k] == fields[k]);
        }
    }
}

} // verus!
