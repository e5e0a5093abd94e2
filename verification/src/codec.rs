//! Conversion of messages to and from JSON values.

use vstd::prelude::*;

use crate::ipc::{self, ChildMsg, DirEntry, Handshake, ParentMsg, SetupMessage, ToolResultPayload};
use crate::json;
use crate::json::{Json, JsonTree};
use crate::text::{concat, debug_quoted, decimal_i64, decimal_u64, same};
use crate::wire;
use crate::wire::{Kind, ToolCallView};

verus! {

// ── Writing ──

/// An object with distinct keys.
fn object(fields: Vec<(String, Json)>) -> (j: Json)
    requires
        json::distinct_keys(json::pair_trees(fields@)),
    ensures
        j.tree() == JsonTree::Object(json::pair_trees(fields@)),
{
    proof {
        json::lemma_put_fields_distinct(json::pair_trees(fields@));
    }
    Json::Object(fields)
}

/// A field.
fn field(key: &str, value: Json) -> (p: (String, Json))
    ensures
        p.0@ == key@,
        p.1.tree() == value.tree(),
{
    (key.to_owned(), value)
}

/// A string field.
fn text_field(key: &str, value: &str) -> (p: (String, Json))
    ensures
        p.0@ == key@,
        p.1.tree() == JsonTree::Str(value@),
{
    (key.to_owned(), Json::Str(value.to_owned()))
}

/// An optional string.
fn opt_text(value: &Option<String>) -> (j: Json)
    ensures
        j.tree() == wire::opt_str_tree(wire::opt_view(*value)),
{
    match value {
        Some(s) => Json::Str(s.clone()),
        None => Json::Null,
    }
}

/// A copy of a list of values.
pub fn copy_list(items: &[Json]) -> (out: Vec<Json>)
    ensures
        json::trees(out@) == json::trees(items@),
{
    let mut out: Vec<Json> = Vec::new();
    for i in 0..items.len()
        invariant
            out@.len() == i,
            forall|k: int| 0 <= k < i ==> (#[trigger] out@[k]).tree() == items@[k].tree(),
    {
        out.push(items[i].copy());
    }
    proof {
        json::lemma_trees(items@);
        json::lemma_trees(out@);
        assert(json::trees(out@) =~= json::trees(items@));
    }
    out
}

/// A copy of a list of named values.
pub fn copy_pairs(pairs: &[(String, Json)]) -> (out: Vec<(String, Json)>)
    ensures
        json::pair_trees(out@) == json::pair_trees(pairs@),
{
    let mut out: Vec<(String, Json)> = Vec::new();
    for i in 0..pairs.len()
        invariant
            out@.len() == i,
            forall|k: int|
                0 <= k < i ==> (#[trigger] out@[k]).0@ == pairs@[k].0@ && out@[k].1.tree()
                    == pairs@[k].1.tree(),
    {
        out.push((pairs[i].0.clone(), pairs[i].1.copy()));
    }
    proof {
        json::lemma_pair_trees(pairs@);
        json::lemma_pair_trees(out@);
        assert(json::pair_trees(out@) =~= json::pair_trees(pairs@));
    }
    out
}

/// Named values, as an array of two-element arrays.
fn kwargs_json(kwargs: &[(String, Json)]) -> (j: Json)
    ensures
        j.tree() == wire::kwargs_tree(json::pair_trees(kwargs@)),
{
    let mut items: Vec<Json> = Vec::new();
    for i in 0..kwargs.len()
        invariant
            items@.len() == i,
            forall|k: int|
                0 <= k < i ==> (#[trigger] items@[k]).tree() == JsonTree::Array(
                    seq![JsonTree::Str(kwargs@[k].0@), kwargs@[k].1.tree()],
                ),
    {
        let mut pair: Vec<Json> = Vec::new();
        pair.push(Json::Str(kwargs[i].0.clone()));
        pair.push(kwargs[i].1.copy());
        proof {
            json::lemma_trees(pair@);
            assert(json::trees(pair@) =~= seq![
                JsonTree::Str(kwargs@[i as int].0@),
                kwargs@[i as int].1.tree(),
            ]);
        }
        items.push(Json::Array(pair));
    }
    proof {
        json::lemma_trees(items@);
        json::lemma_pair_trees(kwargs@);
        assert(json::trees(items@) =~= wire::kwargs_tree(json::pair_trees(kwargs@))->Array_0);
    }
    Json::Array(items)
}

fn payload_json(p: &ToolResultPayload) -> (j: Json)
    ensures
        j.tree() == wire::payload_tree(p@),
{
    let mut f: Vec<(String, Json)> = Vec::new();
    f.push(field("output", opt_text(&p.output)));
    f.push(field("error", opt_text(&p.error)));
    proof {
        json::lemma_pair_trees(f@);
        assert(json::pair_trees(f@) =~= wire::payload_tree(p@)->Object_0);
        wire::lemma_payload_keys(p@);
    }
    object(f)
}

fn entry_json(e: &DirEntry) -> (j: Json)
    ensures
        j.tree() == wire::entry_tree(e@),
{
    let mut f: Vec<(String, Json)> = Vec::new();
    f.push(text_field("name", e.name.as_str()));
    f.push(field("is_dir", Json::Bool(e.is_dir)));
    proof {
        json::lemma_pair_trees(f@);
        assert(json::pair_trees(f@) =~= wire::entry_tree(e@)->Object_0);
        wire::lemma_entry_keys(e@);
    }
    object(f)
}

/// The JSON value of a handshake.
pub fn handshake_json(h: &Handshake) -> (j: Json)
    ensures
        j.tree() == wire::handshake_tree(h@),
{
    let mut f: Vec<(String, Json)> = Vec::new();
    f.push(text_field("name", h.name.as_str()));
    f.push(field("version", Json::Uint(h.version as u64)));
    proof {
        json::lemma_pair_trees(f@);
        assert(json::pair_trees(f@) =~= wire::handshake_tree(h@)->Object_0);
        wire::lemma_handshake_keys(h@);
    }
    object(f)
}

/// The JSON value of a setup message.
pub fn setup_json(m: &SetupMessage) -> (j: Json)
    ensures
        j.tree() == wire::setup_tree(m@),
{
    let mut f: Vec<(String, Json)> = Vec::new();
    f.push(text_field("code", m.code.as_str()));
    f.push(field("timeout_secs", Json::Uint(m.timeout_secs)));
    f.push(field("max_memory", Json::Uint(m.max_memory as u64)));
    proof {
        json::lemma_pair_trees(f@);
        assert(json::pair_trees(f@) =~= wire::setup_tree(m@)->Object_0);
        wire::lemma_setup_keys(m@);
    }
    object(f)
}

/// The fields of a tool request.
fn tool_call_fields(
    call_id: u32,
    name: &str,
    args: &[Json],
    kwargs: &[(String, Json)],
) -> (f: Vec<(String, Json)>)
    ensures
        json::pair_trees(f@) == wire::tool_call_fields(
            call_id,
            name@,
            json::trees(args@),
            json::pair_trees(kwargs@),
        ),
{
    let mut f: Vec<(String, Json)> = Vec::new();
    f.push(text_field("type", "tool_call"));
    f.push(field("call_id", Json::Uint(call_id as u64)));
    f.push(text_field("name", name));
    f.push(field("args", Json::Array(copy_list(args))));
    f.push(field("kwargs", kwargs_json(kwargs)));
    proof {
        json::lemma_pair_trees(f@);
        assert(json::pair_trees(f@) =~= wire::tool_call_fields(
            call_id,
            name@,
            json::trees(args@),
            json::pair_trees(kwargs@),
        ));
    }
    f
}

/// The fields of the result of one call.
fn tool_result_fields(call_id: u32, result: &ToolResultPayload) -> (f: Vec<(String, Json)>)
    ensures
        json::pair_trees(f@) == wire::tool_result_fields(call_id, result@),
{
    let mut f: Vec<(String, Json)> = Vec::new();
    f.push(text_field("type", "tool_result"));
    f.push(field("call_id", Json::Uint(call_id as u64)));
    f.push(field("output", opt_text(&result.output)));
    f.push(field("error", opt_text(&result.error)));
    proof {
        json::lemma_pair_trees(f@);
        assert(json::pair_trees(f@) =~= wire::tool_result_fields(call_id, result@));
    }
    f
}

/// The JSON value of a message from the child.
pub fn child_json(m: &ChildMsg) -> (j: Json)
    ensures
        j.tree() == wire::child_tree(m@),
{
    let mut f: Vec<(String, Json)> = Vec::new();
    match m {
        ChildMsg::Stdout { text } => {
            f.push(text_field("type", "stdout"));
            f.push(text_field("text", text.as_str()));
        },
        ChildMsg::ToolCall { call_id, name, args, kwargs } => {
            f = tool_call_fields(*call_id, name.as_str(), args.as_slice(), kwargs.as_slice());
        },
        ChildMsg::Done { output, stdout, error } => {
            f.push(text_field("type", "done"));
            let value: Json = match output {
                Some(j) => j.copy(),
                None => Json::Null,
            };
            f.push(field("output", value));
            f.push(text_field("stdout", stdout.as_str()));
            f.push(field("error", opt_text(error)));
        },
        ChildMsg::LsResult { entries } => {
            f.push(text_field("type", "ls_result"));
            let mut items: Vec<Json> = Vec::new();
            for i in 0..entries.len()
                invariant
                    items@.len() == i,
                    forall|k: int|
                        0 <= k < i ==> (#[trigger] items@[k]).tree() == wire::entry_tree(
                            entries@[k]@,
                        ),
            {
                items.push(entry_json(&entries[i]));
            }
            proof {
                json::lemma_trees(items@);
                let ev = ipc::entry_views(entries@);
                assert(json::trees(items@) =~= Seq::new(
                    ev.len(),
                    |i: int| wire::entry_tree(ev[i]),
                ));
            }
            f.push(field("entries", Json::Array(items)));
        },
        ChildMsg::PwdResult { path } => {
            f.push(text_field("type", "pwd_result"));
            f.push(text_field("path", path.as_str()));
        },
        ChildMsg::CdResult => {
            f.push(text_field("type", "cd_result"));
        },
        ChildMsg::ExecResult { output, is_error } => {
            f.push(text_field("type", "exec_result"));
            f.push(text_field("output", output.as_str()));
            f.push(field("is_error", Json::Bool(*is_error)));
        },
        ChildMsg::ToolResult { call_id, result } => {
            f = tool_result_fields(*call_id, result);
        },
    }
    proof {
        json::lemma_pair_trees(f@);
        assert(json::pair_trees(f@) =~= wire::child_fields(m@));
        wire::lemma_child_keys(m@);
    }
    object(f)
}

/// The JSON value of a message from the parent.
pub fn parent_json(m: &ParentMsg) -> (j: Json)
    ensures
        j.tree() == wire::parent_tree(m@),
{
    let mut f: Vec<(String, Json)> = Vec::new();
    match m {
        ParentMsg::ToolResult { call_id, result } => {
            f = tool_result_fields(*call_id, result);
        },
        ParentMsg::ToolBatchResult { results } => {
            f.push(text_field("type", "tool_batch_result"));
            let mut items: Vec<Json> = Vec::new();
            for i in 0..results.len()
                invariant
                    items@.len() == i,
                    forall|k: int|
                        0 <= k < i ==> (#[trigger] items@[k]).tree() == JsonTree::Array(
                            seq![
                                JsonTree::Int(results@[k].0 as int),
                                wire::payload_tree(results@[k].1@),
                            ],
                        ),
            {
                let mut pair: Vec<Json> = Vec::new();
                pair.push(Json::Uint(results[i].0 as u64));
                pair.push(payload_json(&results[i].1));
                proof {
                    json::lemma_trees(pair@);
                    assert(json::trees(pair@) =~= seq![
                        JsonTree::Int(results@[i as int].0 as int),
                        wire::payload_tree(results@[i as int].1@),
                    ]);
                }
                items.push(Json::Array(pair));
            }
            proof {
                json::lemma_trees(items@);
                assert(json::trees(items@)
                    =~= wire::parent_fields(m@)[1].1->Array_0);
            }
            f.push(field("results", Json::Array(items)));
        },
        ParentMsg::Cancel => {
            f.push(text_field("type", "cancel"));
        },
        ParentMsg::Exit => {
            f.push(text_field("type", "exit"));
        },
        ParentMsg::Ls { path } => {
            f.push(text_field("type", "ls"));
            f.push(text_field("path", path.as_str()));
        },
        ParentMsg::Pwd => {
            f.push(text_field("type", "pwd"));
        },
        ParentMsg::Cd { path } => {
            f.push(text_field("type", "cd"));
            f.push(text_field("path", path.as_str()));
        },
        ParentMsg::Exec { command } => {
            f.push(text_field("type", "exec"));
            f.push(text_field("command", command.as_str()));
        },
        ParentMsg::Run { call_id, code, timeout_secs, max_memory, config } => {
            f.push(text_field("type", "run"));
            f.push(field("call_id", Json::Uint(*call_id as u64)));
            f.push(text_field("code", code.as_str()));
            f.push(field("timeout_secs", Json::Uint(*timeout_secs)));
            f.push(field("max_memory", Json::Uint(*max_memory as u64)));
            f.push(text_field("config", config.as_str()));
        },
        ParentMsg::ToolCall { call_id, name, args, kwargs } => {
            f = tool_call_fields(*call_id, name.as_str(), args.as_slice(), kwargs.as_slice());
        },
    }
    proof {
        json::lemma_pair_trees(f@);
        assert(json::pair_trees(f@) =~= wire::parent_fields(m@));
        wire::lemma_parent_keys(m@);
    }
    object(f)
}

// ── Reading ──

/// A field of a message, with what it holds.
struct Field {
    name: &'static str,
    kind: Kind,
}

/// The schema of a list of fields.
spec fn schema_of(fields: Seq<Field>) -> wire::Schema {
    Seq::new(fields.len(), |i: int| (fields[i].name@, fields[i].kind))
}

fn integer_text(digits: &str) -> (s: String)
    ensures
        s@ == "integer `"@ + digits@ + "`"@,
{
    let mut s = concat("integer `", digits);
    s.append("`");
    s
}

/// How a value that does not fit is described.
fn describe(j: &Json) -> (s: String)
    ensures
        s@ == wire::described(j.tree()),
{
    match j {
        Json::Null => "null".to_owned(),
        Json::Bool(b) => if *b {
            "boolean `true`".to_owned()
        } else {
            "boolean `false`".to_owned()
        },
        Json::Uint(u) => integer_text(decimal_u64(*u).as_str()),
        Json::Int(i) => integer_text(decimal_i64(*i).as_str()),
        Json::Float(n) => match n.as_u64() {
            Some(u) => integer_text(decimal_u64(u).as_str()),
            None => match n.as_i64() {
                Some(i) => integer_text(decimal_i64(i).as_str()),
                None => {
                    let mut s = concat("floating point `", j.to_text().as_str());
                    s.append("`");
                    s
                },
            },
        },
        Json::Str(t) => concat("string ", debug_quoted(t.as_str()).as_str()),
        Json::Array(_) => "sequence".to_owned(),
        Json::Object(_) => "map".to_owned(),
    }
}

fn bad_type(j: &Json, expected: &str) -> (s: String)
    ensures
        s@ == wire::bad_type(j.tree(), expected@),
{
    let mut s = concat("invalid type: ", describe(j).as_str());
    s.append(", expected ");
    s.append(expected);
    s
}

fn bad_value(j: &Json, expected: &str) -> (s: String)
    ensures
        s@ == wire::bad_value(j.tree(), expected@),
{
    let mut s = concat("invalid value: ", describe(j).as_str());
    s.append(", expected ");
    s.append(expected);
    s
}

fn bad_length(n: usize, expected: &str) -> (s: String)
    ensures
        s@ == wire::bad_length(n as int, expected@),
{
    let mut s = concat("invalid length ", decimal_u64(n as u64).as_str());
    s.append(", expected ");
    s.append(expected);
    s
}

fn elements(n: usize) -> (s: String)
    ensures
        s@ == wire::elements(n as int),
{
    if n == 1 {
        "1 element".to_owned()
    } else {
        concat(decimal_u64(n as u64).as_str(), " elements")
    }
}

fn too_long(len: usize, n: usize) -> (s: String)
    ensures
        s@ == wire::too_long(len as int, n as int),
{
    bad_length(len, concat(elements(n).as_str(), " in sequence").as_str())
}

fn missing_field(name: &str) -> (s: String)
    ensures
        s@ == wire::missing_field(name@),
{
    let mut s = concat("missing field `", name);
    s.append("`");
    s
}

fn expected_in(kind: Kind) -> (s: &'static str)
    ensures
        s@ == wire::expected_in(kind),
{
    match kind {
        Kind::Text | Kind::MaybeText => "a string",
        Kind::Flag => "a boolean",
        Kind::U32 => "u32",
        Kind::U64 => "u64",
        Kind::Usize => "usize",
        Kind::List | Kind::Pairs => "a sequence",
        Kind::Anything => "any value",
    }
}

fn greatest(kind: Kind) -> (n: u64)
    ensures
        n == wire::greatest(kind),
{
    match kind {
        Kind::U32 => u32::MAX as u64,
        Kind::Usize => usize::MAX as u64,
        _ => u64::MAX,
    }
}

/// The value as an integer from 0 up to `max`.
fn small_int(j: &Json, max: u64) -> (r: Option<u64>)
    ensures
        match r {
            Some(u) => j.tree() == JsonTree::Int(u as int) && u <= max,
            None => j.tree() matches JsonTree::Int(i) ==> i < 0 || i > max,
        },
{
    let value: Option<u64> = match j {
        Json::Uint(u) => Some(*u),
        Json::Int(i) => if *i >= 0 {
            Some(*i as u64)
        } else {
            None
        },
        Json::Float(n) => n.as_u64(),
        _ => None,
    };
    match value {
        Some(u) => if u <= max {
            Some(u)
        } else {
            None
        },
        None => None,
    }
}

/// Whether a value is an integer.
fn is_int(j: &Json) -> (r: bool)
    ensures
        r == (j.tree() is Int),
{
    match j {
        Json::Uint(_) => true,
        Json::Int(_) => true,
        Json::Float(n) => match n.as_u64() {
            Some(_) => true,
            None => match n.as_i64() {
                Some(_) => true,
                None => false,
            },
        },
        _ => false,
    }
}

fn is_text(j: &Json) -> (r: bool)
    ensures
        r == (j.tree() is Str),
{
    match j {
        Json::Str(_) => true,
        _ => false,
    }
}

fn is_null(j: &Json) -> (r: bool)
    ensures
        r == (j.tree() is Null),
{
    match j {
        Json::Null => true,
        _ => false,
    }
}

/// What is wrong with a name and its value.
fn pair_complaint(j: &Json) -> (r: Option<String>)
    ensures
        wire::opt_view(r) == wire::pair_complaint(j.tree()),
{
    match j {
        Json::Array(two) => {
            proof {
                json::lemma_trees(two@);
            }
            if two.len() == 0 {
                Some(bad_length(0, "a tuple of size 2"))
            } else if !is_text(&two[0]) {
                Some(bad_type(&two[0], "a string"))
            } else if two.len() == 1 {
                Some(bad_length(1, "a tuple of size 2"))
            } else if two.len() > 2 {
                Some(too_long(two.len(), 2))
            } else {
                None
            }
        },
        _ => Some(bad_type(j, "a tuple of size 2")),
    }
}

fn pairs_complaint(items: &[Json]) -> (r: Option<String>)
    ensures
        wire::opt_view(r) == wire::pairs_complaint(json::trees(items@), 0),
{
    proof {
        json::lemma_trees(items@);
    }
    let mut i: usize = 0;
    while i < items.len()
        invariant
            i <= items@.len(),
            json::trees(items@).len() == items@.len(),
            forall|k: int|
                0 <= k < items@.len() ==> #[trigger] json::trees(items@)[k] == items@[k].tree(),
            wire::pairs_complaint(json::trees(items@), 0) == wire::pairs_complaint(
                json::trees(items@),
                i as int,
            ),
        decreases items@.len() - i,
    {
        let one = pair_complaint(&items[i]);
        if one.is_some() {
            return one;
        }
        i = i + 1;
    }
    None
}

/// What is wrong with the value of a field.
fn complaint(kind: Kind, j: &Json) -> (r: Option<String>)
    ensures
        wire::opt_view(r) == wire::complaint(kind, j.tree()),
{
    let fits: bool = match kind {
        Kind::Text => is_text(j),
        Kind::MaybeText => is_text(j) || is_null(j),
        Kind::Flag => match j {
            Json::Bool(_) => true,
            _ => false,
        },
        Kind::U32 | Kind::U64 | Kind::Usize => {
            if is_int(j) {
                return match small_int(j, greatest(kind)) {
                    Some(_) => None,
                    None => Some(bad_value(j, expected_in(kind))),
                };
            }
            false
        },
        Kind::List => match j {
            Json::Array(_) => true,
            _ => false,
        },
        Kind::Pairs => match j {
            Json::Array(items) => {
                return pairs_complaint(items.as_slice());
            },
            _ => false,
        },
        Kind::Anything => true,
    };
    if fits {
        None
    } else {
        Some(bad_type(j, expected_in(kind)))
    }
}

/// What a field of this name holds.
fn kind_of(fields: &[Field], name: &str) -> (r: Option<Kind>)
    ensures
        r == wire::kind_of(schema_of(fields@), name@, 0),
{
    let mut i: usize = 0;
    while i < fields.len()
        invariant
            i <= fields@.len(),
            wire::kind_of(schema_of(fields@), name@, 0) == wire::kind_of(
                schema_of(fields@),
                name@,
                i as int,
            ),
        decreases fields@.len() - i,
    {
        if same(fields[i].name, name) {
            return Some(fields[i].kind);
        }
        i = i + 1;
    }
    None
}

/// What is wrong with the first field that does not fit.
fn fields_complaint(fields: &[Field], values: &[(String, Json)]) -> (r: Option<String>)
    ensures
        wire::opt_view(r) == wire::fields_complaint(
            schema_of(fields@),
            json::pair_trees(values@),
            0,
        ),
{
    let ghost all = json::pair_trees(values@);
    proof {
        json::lemma_pair_trees(values@);
    }
    let mut i: usize = 0;
    while i < values.len()
        invariant
            i <= values@.len(),
            all == json::pair_trees(values@),
            all.len() == values@.len(),
            forall|k: int|
                0 <= k < values@.len() ==> #[trigger] all[k] == (
                    values@[k].0@,
                    values@[k].1.tree(),
                ),
            wire::fields_complaint(schema_of(fields@), all, 0) == wire::fields_complaint(
                schema_of(fields@),
                all,
                i as int,
            ),
        decreases values@.len() - i,
    {
        assert(all[i as int] == (values@[i as int].0@, values@[i as int].1.tree()));
        match kind_of(fields, values[i].0.as_str()) {
            Some(kind) => {
                let one = complaint(kind, &values[i].1);
                if one.is_some() {
                    return one;
                }
            },
            None => {},
        }
        i = i + 1;
    }
    None
}

/// The field of this name in a list.
fn find<'a>(values: &'a [(String, Json)], name: &str) -> (r: Option<&'a Json>)
    ensures
        match r {
            Some(j) => json::field_of(json::pair_trees(values@), name@) == Some(j.tree()),
            None => json::field_of(json::pair_trees(values@), name@) is None,
        },
{
    let ghost all = json::pair_trees(values@);
    proof {
        json::lemma_pair_trees(values@);
        assert(all.skip(0) =~= all);
    }
    let mut i: usize = 0;
    while i < values.len()
        invariant
            i <= values@.len(),
            all == json::pair_trees(values@),
            all.len() == values@.len(),
            forall|k: int|
                0 <= k < values@.len() ==> #[trigger] all[k] == (
                    values@[k].0@,
                    values@[k].1.tree(),
                ),
            json::field_of(all, name@) == json::field_of(all.skip(i as int), name@),
        decreases values@.len() - i,
    {
        proof {
            assert(all.skip(i as int)[0] == all[i as int]);
            assert(all.skip(i as int).drop_first() =~= all.skip(i + 1));
        }
        if same(values[i].0.as_str(), name) {
            return Some(&values[i].1);
        }
        i = i + 1;
    }
    None
}

/// The value of a field: `null` where it is left out.
fn value_in(values: &[(String, Json)], name: &str) -> (j: Json)
    ensures
        j.tree() == wire::value_in(json::pair_trees(values@), name@),
{
    match find(values, name) {
        Some(v) => v.copy(),
        None => Json::Null,
    }
}

fn first_missing(fields: &[Field], values: &[(String, Json)]) -> (r: Option<&'static str>)
    ensures
        match r {
            Some(name) => wire::first_missing(schema_of(fields@), json::pair_trees(values@), 0)
                == Some(name@),
            None => wire::first_missing(schema_of(fields@), json::pair_trees(values@), 0) is None,
        },
{
    let mut i: usize = 0;
    while i < fields.len()
        invariant
            i <= fields@.len(),
            wire::first_missing(schema_of(fields@), json::pair_trees(values@), 0)
                == wire::first_missing(
                schema_of(fields@),
                json::pair_trees(values@),
                i as int,
            ),
        decreases fields@.len() - i,
    {
        let needed: bool = match fields[i].kind {
            Kind::MaybeText | Kind::Anything => false,
            _ => true,
        };
        if needed && find(values, fields[i].name).is_none() {
            return Some(fields[i].name);
        }
        i = i + 1;
    }
    None
}

/// What is wrong with the first element that does not fit or is not there.
fn items_complaint(fields: &[Field], what: &str, items: &[Json]) -> (r: Option<String>)
    ensures
        wire::opt_view(r) == wire::items_complaint(
            schema_of(fields@),
            what@,
            json::trees(items@),
            0,
        ),
{
    proof {
        json::lemma_trees(items@);
    }
    let mut i: usize = 0;
    while i < fields.len()
        invariant
            i <= fields@.len(),
            json::trees(items@).len() == items@.len(),
            forall|k: int|
                0 <= k < items@.len() ==> #[trigger] json::trees(items@)[k] == items@[k].tree(),
            wire::items_complaint(schema_of(fields@), what@, json::trees(items@), 0)
                == wire::items_complaint(
                schema_of(fields@),
                what@,
                json::trees(items@),
                i as int,
            ),
        decreases fields@.len() - i,
    {
        if i >= items.len() {
            let mut whole = concat(what, " with ");
            whole.append(elements(fields.len()).as_str());
            return Some(bad_length(i, whole.as_str()));
        }
        let one = complaint(fields[i].kind, &items[i]);
        if one.is_some() {
            return one;
        }
        i = i + 1;
    }
    None
}

/// The values of the fields, in the order of the schema.
fn read_fields(fields: &[Field], what: &str, j: &Json) -> (r: Result<Vec<Json>, String>)
    ensures
        match r {
            Ok(v) => wire::gives(
                wire::read_fields(schema_of(fields@), what@, j.tree()),
                json::trees(v@),
            ) && v@.len() == fields@.len() && json::trees(v@).len() == fields@.len() && (forall|
                k: int,
            |
                0 <= k < v@.len() ==> #[trigger] json::trees(v@)[k] == v@[k].tree()),
            Err(e) => wire::fails(wire::read_fields(schema_of(fields@), what@, j.tree()), e@),
        },
{
    let mut out: Vec<Json> = Vec::new();
    match j {
        Json::Object(_) => {
            let values = match j.fields() {
                Some(f) => f,
                None => Vec::new(),
            };
            let ghost all = json::pair_trees(values@);
            match fields_complaint(fields, values.as_slice()) {
                Some(e) => return Err(e),
                None => {},
            }
            match first_missing(fields, values.as_slice()) {
                Some(name) => return Err(missing_field(name)),
                None => {},
            }
            for i in 0..fields.len()
                invariant
                    all == json::pair_trees(values@),
                    out@.len() == i,
                    forall|k: int|
                        0 <= k < i ==> (#[trigger] out@[k]).tree() == wire::value_in(
                            all,
                            fields@[k].name@,
                        ),
            {
                out.push(value_in(values.as_slice(), fields[i].name));
            }
            proof {
                json::lemma_trees(out@);
                let schema = schema_of(fields@);
                assert(json::trees(out@) =~= Seq::new(
                    schema.len(),
                    |i: int| wire::value_in(all, schema[i].0),
                ));
            }
        },
        Json::Array(items) => {
            match items_complaint(fields, what, items.as_slice()) {
                Some(e) => return Err(e),
                None => {},
            }
            proof {
                json::lemma_trees(items@);
                lemma_enough_items(schema_of(fields@), what@, json::trees(items@), 0);
            }
            for i in 0..fields.len()
                invariant
                    fields@.len() <= items@.len(),
                    out@.len() == i,
                    forall|k: int|
                        0 <= k < i ==> (#[trigger] out@[k]).tree() == items@[k].tree(),
            {
                out.push(items[i].copy());
            }
            proof {
                json::lemma_trees(out@);
                assert(json::trees(out@) =~= json::trees(items@).take(fields@.len() as int));
            }
        },
        _ => return Err(bad_type(j, what)),
    }
    Ok(out)
}

/// Where no element is complained of, there are enough.
proof fn lemma_enough_items(
    schema: wire::Schema,
    what: Seq<char>,
    items: Seq<JsonTree>,
    from: int,
)
    requires
        0 <= from <= schema.len(),
        wire::items_complaint(schema, what, items, from) is None,
    ensures
        from < schema.len() ==> schema.len() <= items.len(),
    decreases schema.len() - from,
{
    if from < schema.len() {
        lemma_enough_items(schema, what, items, from + 1);
    }
}

/// The length of an array; anything else has none.
fn length_of(j: &Json) -> (n: usize)
    ensures
        n == wire::length_of(j.tree()),
        wire::ends_at(j.tree(), 0) <==> n == 0,
        forall|k: int| k >= 0 ==> (#[trigger] wire::ends_at(j.tree(), k) <==> n <= k),
{
    match j {
        Json::Array(items) => {
            proof {
                json::lemma_trees(items@);
            }
            items.len()
        },
        _ => 0,
    }
}

/// The values of the fields of a message or a part of it, with nothing after them.
fn read_whole(fields: &[Field], what: &str, j: &Json) -> (r: Result<Vec<Json>, String>)
    ensures
        match r {
            Ok(v) => wire::gives(
                wire::read_whole(schema_of(fields@), what@, j.tree()),
                json::trees(v@),
            ) && v@.len() == fields@.len() && json::trees(v@).len() == fields@.len() && (forall|
                k: int,
            |
                0 <= k < v@.len() ==> #[trigger] json::trees(v@)[k] == v@[k].tree()),
            Err(e) => wire::fails(wire::read_whole(schema_of(fields@), what@, j.tree()), e@),
        },
{
    match read_fields(fields, what, j) {
        Err(e) => Err(e),
        Ok(values) => {
            let n: usize = fields.len();
            let len: usize = length_of(j);
            assert(wire::ends_at(j.tree(), n as int) <==> len <= n);
            if len > n {
                Err(too_long(len, n))
            } else {
                Ok(values)
            }
        },
    }
}

/// The values of the fields of a message that has no kind, with nothing after them.
fn read_alone(fields: &[Field], what: &str, j: &Json) -> (r: Result<Vec<Json>, String>)
    ensures
        match r {
            Ok(v) => wire::gives(
                wire::read_alone(schema_of(fields@), what@, j.tree()),
                json::trees(v@),
            ) && v@.len() == fields@.len() && json::trees(v@).len() == fields@.len() && (forall|
                k: int,
            |
                0 <= k < v@.len() ==> #[trigger] json::trees(v@)[k] == v@[k].tree()),
            Err(e) => wire::fails(wire::read_alone(schema_of(fields@), what@, j.tree()), e@),
        },
{
    match read_fields(fields, what, j) {
        Err(e) => Err(e),
        Ok(values) => {
            let n: usize = fields.len();
            let len: usize = length_of(j);
            assert(wire::ends_at(j.tree(), n as int) <==> len <= n);
            if len > n {
                Err("trailing characters".to_owned())
            } else {
                Ok(values)
            }
        },
    }
}

// ── The values in the fields ──

fn text_in(j: &Json) -> (s: String)
    ensures
        s@ == wire::text_in(j.tree()),
{
    match j {
        Json::Str(s) => s.clone(),
        _ => {
            let s = String::new();
            assert(s@ =~= seq![]);
            s
        },
    }
}

fn flag_in(j: &Json) -> (b: bool)
    ensures
        b == wire::flag_in(j.tree()),
{
    match j {
        Json::Bool(b) => *b,
        _ => false,
    }
}

fn int_in(kind: Kind, j: &Json) -> (n: u64)
    ensures
        n == wire::int_in(kind, j.tree()),
        n <= wire::greatest(kind),
{
    match small_int(j, greatest(kind)) {
        Some(u) => u,
        None => 0,
    }
}

fn list_in(j: &Json) -> (v: Vec<Json>)
    ensures
        json::trees(v@) == wire::list_in(j.tree()),
{
    match j {
        Json::Array(items) => copy_list(items.as_slice()),
        _ => {
            let v: Vec<Json> = Vec::new();
            proof {
                json::lemma_trees(v@);
                assert(json::trees(v@) =~= seq![]);
            }
            v
        },
    }
}

fn maybe_text_in(j: &Json) -> (r: Option<String>)
    ensures
        wire::opt_view(r) == wire::maybe_text_in(j.tree()),
{
    match j {
        Json::Str(s) => Some(s.clone()),
        _ => None,
    }
}

fn maybe_value_in(j: &Json) -> (r: Option<Json>)
    ensures
        wire::opt_tree(r) == wire::maybe_value_in(j.tree()),
{
    match j {
        Json::Null => None,
        v => Some(v.copy()),
    }
}

fn pair_in(j: &Json) -> (p: (String, Json))
    ensures
        (p.0@, p.1.tree()) == wire::pair_in(j.tree()),
{
    match j {
        Json::Array(two) => {
            proof {
                json::lemma_trees(two@);
            }
            if two.len() == 2 {
                return (text_in(&two[0]), two[1].copy());
            }
        },
        _ => {},
    }
    let s = String::new();
    assert(s@ =~= seq![]);
    (s, Json::Null)
}

fn pairs_in(j: &Json) -> (v: Vec<(String, Json)>)
    ensures
        json::pair_trees(v@) == wire::pairs_in(j.tree()),
{
    let mut out: Vec<(String, Json)> = Vec::new();
    match j {
        Json::Array(items) => {
            proof {
                json::lemma_trees(items@);
            }
            for i in 0..items.len()
                invariant
                    json::trees(items@).len() == items@.len(),
                    forall|k: int|
                        0 <= k < items@.len() ==> #[trigger] json::trees(items@)[k]
                            == items@[k].tree(),
                    out@.len() == i,
                    forall|k: int|
                        0 <= k < i ==> (out@[k].0@, out@[k].1.tree()) == wire::pair_in(
                            #[trigger] json::trees(items@)[k],
                        ),
            {
                out.push(pair_in(&items[i]));
            }
        },
        _ => {},
    }
    proof {
        json::lemma_pair_trees(out@);
        assert(json::pair_trees(out@) =~= wire::pairs_in(j.tree()));
    }
    out
}

// ── The parts of messages ──

fn entry_from(j: &Json) -> (r: Result<DirEntry, String>)
    ensures
        match r {
            Ok(d) => wire::gives(wire::read_entry(j.tree()), d@),
            Err(e) => wire::fails(wire::read_entry(j.tree()), e@),
        },
{
    let fields: Vec<Field> = vec![
        Field { name: "name", kind: Kind::Text },
        Field { name: "is_dir", kind: Kind::Flag },
    ];
    assert(schema_of(fields@) =~= wire::entry_schema());
    match read_whole(fields.as_slice(), "struct DirEntry", j) {
        Err(e) => Err(e),
        Ok(v) => {
            let ghost all = json::trees(v@);
            assert(all[0] == v@[0].tree() && all[1] == v@[1].tree());
            Ok(DirEntry { name: text_in(&v[0]), is_dir: flag_in(&v[1]) })
        },
    }
}

fn payload_from(j: &Json) -> (r: Result<ToolResultPayload, String>)
    ensures
        match r {
            Ok(p) => wire::gives(wire::read_payload(j.tree()), p@),
            Err(e) => wire::fails(wire::read_payload(j.tree()), e@),
        },
{
    let fields = payload_fields();
    match read_whole(fields.as_slice(), "struct ToolResultPayload", j) {
        Err(e) => Err(e),
        Ok(v) => {
            let ghost all = json::trees(v@);
            assert(all[0] == v@[0].tree() && all[1] == v@[1].tree());
            Ok(ToolResultPayload { output: maybe_text_in(&v[0]), error: maybe_text_in(&v[1]) })
        },
    }
}

fn payload_fields() -> (fields: Vec<Field>)
    ensures
        schema_of(fields@) == wire::payload_schema(),
{
    let fields: Vec<Field> = vec![
        Field { name: "output", kind: Kind::MaybeText },
        Field { name: "error", kind: Kind::MaybeText },
    ];
    assert(schema_of(fields@) =~= wire::payload_schema());
    fields
}

fn result_from(j: &Json) -> (r: Result<(u32, ToolResultPayload), String>)
    ensures
        match r {
            Ok(p) => wire::gives(wire::read_result(j.tree()), (p.0, p.1@)),
            Err(e) => wire::fails(wire::read_result(j.tree()), e@),
        },
{
    match j {
        Json::Array(two) => {
            proof {
                json::lemma_trees(two@);
            }
            if two.len() == 0 {
                return Err(bad_length(0, "a tuple of size 2"));
            }
            match complaint(Kind::U32, &two[0]) {
                Some(e) => return Err(e),
                None => {},
            }
            if two.len() == 1 {
                return Err(bad_length(1, "a tuple of size 2"));
            }
            match payload_from(&two[1]) {
                Err(e) => Err(e),
                Ok(p) => if two.len() > 2 {
                    Err(too_long(two.len(), 2))
                } else {
                    Ok((int_in(Kind::U32, &two[0]) as u32, p))
                },
            }
        },
        _ => Err(bad_type(j, "a tuple of size 2")),
    }
}

/// Reads a handshake from its JSON value.
pub fn handshake_from(j: &Json) -> (r: Result<Handshake, String>)
    ensures
        match r {
            Ok(h) => wire::gives(wire::read_handshake(j.tree()), h@),
            Err(e) => wire::fails(wire::read_handshake(j.tree()), e@),
        },
{
    let fields: Vec<Field> = vec![
        Field { name: "name", kind: Kind::Text },
        Field { name: "version", kind: Kind::U32 },
    ];
    assert(schema_of(fields@) =~= wire::handshake_schema());
    match read_alone(fields.as_slice(), "struct Handshake", j) {
        Err(e) => Err(e),
        Ok(v) => {
            let ghost all = json::trees(v@);
            assert(all[0] == v@[0].tree() && all[1] == v@[1].tree());
            Ok(Handshake { name: text_in(&v[0]), version: int_in(Kind::U32, &v[1]) as u32 })
        },
    }
}

/// Reads a setup message from its JSON value.
pub fn setup_from(j: &Json) -> (r: Result<SetupMessage, String>)
    ensures
        match r {
            Ok(m) => wire::gives(wire::read_setup(j.tree()), m@),
            Err(e) => wire::fails(wire::read_setup(j.tree()), e@),
        },
{
    let fields: Vec<Field> = vec![
        Field { name: "code", kind: Kind::Text },
        Field { name: "timeout_secs", kind: Kind::U64 },
        Field { name: "max_memory", kind: Kind::Usize },
    ];
    assert(schema_of(fields@) =~= wire::setup_schema());
    match read_alone(fields.as_slice(), "struct SetupMessage", j) {
        Err(e) => Err(e),
        Ok(v) => {
            let ghost all = json::trees(v@);
            assert(all[0] == v@[0].tree() && all[1] == v@[1].tree() && all[2] == v@[2].tree());
            Ok(
                SetupMessage {
                    code: text_in(&v[0]),
                    timeout_secs: int_in(Kind::U64, &v[1]),
                    max_memory: int_in(Kind::Usize, &v[2]) as usize,
                },
            )
        },
    }
}

/// The parts of a request to run a tool.
struct ToolCallParts {
    call_id: u32,
    name: String,
    args: Vec<Json>,
    kwargs: Vec<(String, Json)>,
}

impl ToolCallParts {
    spec fn parts(self) -> ToolCallView {
        ToolCallView {
            call_id: self.call_id,
            name: self.name@,
            args: json::trees(self.args@),
            kwargs: json::pair_trees(self.kwargs@),
        }
    }
}

fn tool_call_from(what: &str, j: &Json) -> (r: Result<ToolCallParts, String>)
    ensures
        match r {
            Ok(c) => wire::gives(wire::read_tool_call(what@, j.tree()), c.parts()),
            Err(e) => wire::fails(wire::read_tool_call(what@, j.tree()), e@),
        },
{
    let fields: Vec<Field> = vec![
        Field { name: "call_id", kind: Kind::U32 },
        Field { name: "name", kind: Kind::Text },
        Field { name: "args", kind: Kind::List },
        Field { name: "kwargs", kind: Kind::Pairs },
    ];
    assert(schema_of(fields@) =~= wire::tool_call_schema());
    match read_whole(fields.as_slice(), what, j) {
        Err(e) => Err(e),
        Ok(v) => {
            let ghost all = json::trees(v@);
            assert(all[0] == v@[0].tree() && all[1] == v@[1].tree());
            assert(all[2] == v@[2].tree() && all[3] == v@[3].tree());
            Ok(
                ToolCallParts {
                    call_id: int_in(Kind::U32, &v[0]) as u32,
                    name: text_in(&v[1]),
                    args: list_in(&v[2]),
                    kwargs: pairs_in(&v[3]),
                },
            )
        },
    }
}

fn tool_result_from(what: &str, j: &Json) -> (r: Result<(u32, ToolResultPayload), String>)
    ensures
        match r {
            Ok(p) => wire::gives(wire::read_tool_result(what@, j.tree()), (p.0, p.1@)),
            Err(e) => wire::fails(wire::read_tool_result(what@, j.tree()), e@),
        },
{
    let values = match j.fields() {
        Some(f) => f,
        None => return Err(bad_type(j, what)),
    };
    let fields: Vec<Field> = vec![Field { name: "call_id", kind: Kind::U32 }];
    assert(schema_of(fields@) =~= wire::call_schema());
    match read_fields(fields.as_slice(), what, j) {
        Err(e) => Err(e),
        Ok(v) => {
            let ghost all = json::trees(v@);
            assert(all[0] == v@[0].tree());
            match fields_complaint(payload_fields().as_slice(), values.as_slice()) {
                Some(e) => Err(e),
                None => Ok(
                    (
                        int_in(Kind::U32, &v[0]) as u32,
                        ToolResultPayload {
                            output: maybe_text_in(&value_in(values.as_slice(), "output")),
                            error: maybe_text_in(&value_in(values.as_slice(), "error")),
                        },
                    ),
                ),
            }
        },
    }
}

fn nothing_from(j: &Json) -> (r: Result<(), String>)
    ensures
        match r {
            Ok(_) => wire::gives(wire::read_nothing(j.tree()), ()),
            Err(e) => wire::fails(wire::read_nothing(j.tree()), e@),
        },
{
    let len: usize = length_of(j);
    if len == 0 {
        Ok(())
    } else {
        Err(too_long(len, 0))
    }
}

fn text_from(name: &'static str, what: &str, j: &Json) -> (r: Result<String, String>)
    ensures
        match r {
            Ok(s) => wire::gives(wire::read_text(name@, what@, j.tree()), s@),
            Err(e) => wire::fails(wire::read_text(name@, what@, j.tree()), e@),
        },
{
    let fields: Vec<Field> = vec![Field { name, kind: Kind::Text }];
    assert(schema_of(fields@) =~= seq![(name@, Kind::Text)]);
    match read_whole(fields.as_slice(), what, j) {
        Err(e) => Err(e),
        Ok(v) => {
            let ghost all = json::trees(v@);
            assert(all[0] == v@[0].tree());
            Ok(text_in(&v[0]))
        },
    }
}

// ── The kinds of messages ──

fn kind_in(j: &Json) -> (r: Result<String, String>)
    ensures
        match r {
            Ok(s) => wire::gives(wire::kind_in(j.tree()), s@),
            Err(e) => wire::fails(wire::kind_in(j.tree()), e@),
        },
{
    match j {
        Json::Str(s) => Ok(s.clone()),
        _ => Err(bad_type(j, "variant identifier")),
    }
}

fn tag_from(what: &str, j: &Json) -> (r: Result<String, String>)
    ensures
        match r {
            Ok(s) => wire::gives(wire::read_tag(what@, j.tree()), s@),
            Err(e) => wire::fails(wire::read_tag(what@, j.tree()), e@),
        },
{
    match j {
        Json::Object(_) => match j.get("type") {
            None => Err(missing_field("type")),
            Some(v) => kind_in(v),
        },
        Json::Array(items) => {
            proof {
                json::lemma_trees(items@);
            }
            if items.len() == 0 {
                Err(missing_field("type"))
            } else {
                kind_in(&items[0])
            }
        },
        _ => Err(bad_type(j, what)),
    }
}

/// What a message holds besides its kind.
fn content_of(j: &Json) -> (c: Json)
    ensures
        c.tree() == wire::content_of(j.tree()),
{
    match j {
        Json::Array(items) => {
            let mut rest: Vec<Json> = Vec::new();
            proof {
                json::lemma_trees(items@);
            }
            let n: usize = items.len();
            let mut i: usize = 1;
            while i < n
                invariant
                    n == items@.len(),
                    1 <= i,
                    n >= 1 ==> i <= n,
                    n >= 1 ==> rest@.len() == i - 1,
                    n == 0 ==> rest@.len() == 0,
                    forall|k: int|
                        0 <= k < rest@.len() ==> (#[trigger] rest@[k]).tree() == items@[k + 1].tree(),
                decreases n - i,
            {
                rest.push(items[i].copy());
                i = i + 1;
            }
            proof {
                json::lemma_trees(rest@);
                if n > 0 {
                    assert(json::trees(rest@) =~= json::trees(items@).skip(1));
                } else {
                    assert(json::trees(rest@) =~= json::trees(items@));
                }
            }
            Json::Array(rest)
        },
        _ => j.copy(),
    }
}

fn unknown_kind(kind: &str, kinds: &str) -> (s: String)
    ensures
        s@ == wire::unknown_kind(kind@, kinds@),
{
    let mut s = concat("unknown variant `", kind);
    s.append("`, expected one of ");
    s.append(kinds);
    s
}

fn done_from(j: &Json) -> (r: Result<ChildMsg, String>)
    ensures
        match r {
            Ok(m) => wire::gives(wire::read_done(j.tree()), m@),
            Err(e) => wire::fails(wire::read_done(j.tree()), e@),
        },
{
    let fields: Vec<Field> = vec![
        Field { name: "output", kind: Kind::Anything },
        Field { name: "stdout", kind: Kind::Text },
        Field { name: "error", kind: Kind::MaybeText },
    ];
    assert(schema_of(fields@) =~= wire::done_schema());
    match read_whole(fields.as_slice(), "struct variant ChildMsg::Done", j) {
        Err(e) => Err(e),
        Ok(v) => {
            let ghost all = json::trees(v@);
            assert(all[0] == v@[0].tree() && all[1] == v@[1].tree() && all[2] == v@[2].tree());
            Ok(
                ChildMsg::Done {
                    output: maybe_value_in(&v[0]),
                    stdout: text_in(&v[1]),
                    error: maybe_text_in(&v[2]),
                },
            )
        },
    }
}

fn ls_result_from(j: &Json) -> (r: Result<ChildMsg, String>)
    ensures
        match r {
            Ok(m) => wire::gives(wire::read_ls_result(j.tree()), m@),
            Err(e) => wire::fails(wire::read_ls_result(j.tree()), e@),
        },
{
    let fields: Vec<Field> = vec![Field { name: "entries", kind: Kind::List }];
    assert(schema_of(fields@) =~= seq![("entries"@, Kind::List)]);
    let v = match read_fields(fields.as_slice(), "struct variant ChildMsg::LsResult", j) {
        Err(e) => return Err(e),
        Ok(v) => v,
    };
    let items = list_in(&v[0]);
    let ghost all = json::trees(items@);
    let ghost values = json::trees(v@);
    proof {
        assert(values[0] == v@[0].tree());
        json::lemma_trees(items@);
    }
    let mut entries: Vec<DirEntry> = Vec::new();
    assert(ipc::entry_views(entries@) =~= seq![]);
    let mut i: usize = 0;
    while i < items.len()
        invariant
            i <= items@.len(),
            all == json::trees(items@),
            all.len() == items@.len(),
            forall|k: int| 0 <= k < items@.len() ==> #[trigger] all[k] == items@[k].tree(),
            wire::gives(
                wire::read_fields(
                    seq![("entries"@, Kind::List)],
                    "struct variant ChildMsg::LsResult"@,
                    j.tree(),
                ),
                values,
            ),
            all == wire::list_in(values[0]),
            wire::gives(wire::read_entries(all, i as int), ipc::entry_views(entries@)),
        decreases items@.len() - i,
    {
        match entry_from(&items[i]) {
            Err(e) => {
                proof {
                    lemma_entries_fail(all, i + 1, all.len() as int);
                }
                return Err(e);
            },
            Ok(d) => {
                let ghost before = ipc::entry_views(entries@);
                entries.push(d);
                assert(ipc::entry_views(entries@) =~= before.push(d@));
            },
        }
        i = i + 1;
    }
    let len: usize = length_of(j);
    assert(wire::ends_at(j.tree(), 1) <==> len <= 1);
    if len > 1 {
        Err(too_long(len, 1))
    } else {
        Ok(ChildMsg::LsResult { entries })
    }
}

/// Entries that cannot be read stay so with more of them.
proof fn lemma_entries_fail(items: Seq<JsonTree>, n: int, m: int)
    requires
        0 <= n <= m,
        wire::read_entries(items, n) is Err,
    ensures
        wire::read_entries(items, m) == wire::read_entries(items, n),
    decreases m - n,
{
    if n < m {
        lemma_entries_fail(items, n, m - 1);
    }
}

fn exec_result_from(j: &Json) -> (r: Result<ChildMsg, String>)
    ensures
        match r {
            Ok(m) => wire::gives(wire::read_exec_result(j.tree()), m@),
            Err(e) => wire::fails(wire::read_exec_result(j.tree()), e@),
        },
{
    let fields: Vec<Field> = vec![
        Field { name: "output", kind: Kind::Text },
        Field { name: "is_error", kind: Kind::Flag },
    ];
    assert(schema_of(fields@) =~= wire::exec_schema());
    match read_whole(fields.as_slice(), "struct variant ChildMsg::ExecResult", j) {
        Err(e) => Err(e),
        Ok(v) => {
            let ghost all = json::trees(v@);
            assert(all[0] == v@[0].tree() && all[1] == v@[1].tree());
            Ok(ChildMsg::ExecResult { output: text_in(&v[0]), is_error: flag_in(&v[1]) })
        },
    }
}

/// Reads a message from the child from its JSON value.
pub fn child_from(j: &Json) -> (r: Result<ChildMsg, String>)
    ensures
        match r {
            Ok(m) => wire::gives(wire::read_child(j.tree()), m@),
            Err(e) => wire::fails(wire::read_child(j.tree()), e@),
        },
{
    let kind = match tag_from("internally tagged enum ChildMsg", j) {
        Ok(k) => k,
        Err(e) => return Err(e),
    };
    let k = kind.as_str();
    let content = content_of(j);
    let c = &content;
    if same(k, "stdout") {
        match text_from("text", "struct variant ChildMsg::Stdout", c) {
            Err(e) => Err(e),
            Ok(text) => Ok(ChildMsg::Stdout { text }),
        }
    } else if same(k, "tool_call") {
        match tool_call_from("struct variant ChildMsg::ToolCall", c) {
            Err(e) => Err(e),
            Ok(c) => Ok(
                ChildMsg::ToolCall {
                    call_id: c.call_id,
                    name: c.name,
                    args: c.args,
                    kwargs: c.kwargs,
                },
            ),
        }
    } else if same(k, "done") {
        done_from(c)
    } else if same(k, "ls_result") {
        ls_result_from(c)
    } else if same(k, "pwd_result") {
        match text_from("path", "struct variant ChildMsg::PwdResult", c) {
            Err(e) => Err(e),
            Ok(path) => Ok(ChildMsg::PwdResult { path }),
        }
    } else if same(k, "cd_result") {
        match nothing_from(c) {
            Err(e) => Err(e),
            Ok(_) => Ok(ChildMsg::CdResult),
        }
    } else if same(k, "exec_result") {
        exec_result_from(c)
    } else if same(k, "tool_result") {
        match tool_result_from("struct variant ChildMsg::ToolResult", c) {
            Err(e) => Err(e),
            Ok(p) => Ok(ChildMsg::ToolResult { call_id: p.0, result: p.1 }),
        }
    } else {
        Err(
            unknown_kind(
                k,
                "`stdout`, `tool_call`, `done`, `ls_result`, `pwd_result`, `cd_result`, `exec_result`, `tool_result`",
            ),
        )
    }
}

fn batch_from(j: &Json) -> (r: Result<ParentMsg, String>)
    ensures
        match r {
            Ok(m) => wire::gives(wire::read_batch(j.tree()), m@),
            Err(e) => wire::fails(wire::read_batch(j.tree()), e@),
        },
{
    let fields: Vec<Field> = vec![Field { name: "results", kind: Kind::List }];
    assert(schema_of(fields@) =~= seq![("results"@, Kind::List)]);
    let v = match read_fields(fields.as_slice(), "struct variant ParentMsg::ToolBatchResult", j) {
        Err(e) => return Err(e),
        Ok(v) => v,
    };
    let items = list_in(&v[0]);
    let ghost all = json::trees(items@);
    let ghost values = json::trees(v@);
    proof {
        assert(values[0] == v@[0].tree());
        json::lemma_trees(items@);
    }
    let mut results: Vec<(u32, ToolResultPayload)> = Vec::new();
    assert(ipc::result_views(results@) =~= seq![]);
    let mut i: usize = 0;
    while i < items.len()
        invariant
            i <= items@.len(),
            all == json::trees(items@),
            all.len() == items@.len(),
            forall|k: int| 0 <= k < items@.len() ==> #[trigger] all[k] == items@[k].tree(),
            wire::gives(
                wire::read_fields(
                    seq![("results"@, Kind::List)],
                    "struct variant ParentMsg::ToolBatchResult"@,
                    j.tree(),
                ),
                values,
            ),
            all == wire::list_in(values[0]),
            wire::gives(wire::read_results(all, i as int), ipc::result_views(results@)),
        decreases items@.len() - i,
    {
        match result_from(&items[i]) {
            Err(e) => {
                proof {
                    lemma_results_fail(all, i + 1, all.len() as int);
                }
                return Err(e);
            },
            Ok(p) => {
                let ghost before = ipc::result_views(results@);
                results.push(p);
                assert(ipc::result_views(results@) =~= before.push((p.0, p.1@)));
            },
        }
        i = i + 1;
    }
    let len: usize = length_of(j);
    assert(wire::ends_at(j.tree(), 1) <==> len <= 1);
    if len > 1 {
        Err(too_long(len, 1))
    } else {
        Ok(ParentMsg::ToolBatchResult { results })
    }
}

/// Results that cannot be read stay so with more of them.
proof fn lemma_results_fail(items: Seq<JsonTree>, n: int, m: int)
    requires
        0 <= n <= m,
        wire::read_results(items, n) is Err,
    ensures
        wire::read_results(items, m) == wire::read_results(items, n),
    decreases m - n,
{
    if n < m {
        lemma_results_fail(items, n, m - 1);
    }
}

fn run_from(j: &Json) -> (r: Result<ParentMsg, String>)
    ensures
        match r {
            Ok(m) => wire::gives(wire::read_run(j.tree()), m@),
            Err(e) => wire::fails(wire::read_run(j.tree()), e@),
        },
{
    let fields: Vec<Field> = vec![
        Field { name: "call_id", kind: Kind::U32 },
        Field { name: "code", kind: Kind::Text },
        Field { name: "timeout_secs", kind: Kind::U64 },
        Field { name: "max_memory", kind: Kind::Usize },
        Field { name: "config", kind: Kind::Text },
    ];
    assert(schema_of(fields@) =~= wire::run_schema());
    match read_whole(fields.as_slice(), "struct variant ParentMsg::Run", j) {
        Err(e) => Err(e),
        Ok(v) => {
            let ghost all = json::trees(v@);
            assert(all[0] == v@[0].tree() && all[1] == v@[1].tree() && all[2] == v@[2].tree());
            assert(all[3] == v@[3].tree() && all[4] == v@[4].tree());
            Ok(
                ParentMsg::Run {
                    call_id: int_in(Kind::U32, &v[0]) as u32,
                    code: text_in(&v[1]),
                    timeout_secs: int_in(Kind::U64, &v[2]),
                    max_memory: int_in(Kind::Usize, &v[3]) as usize,
                    config: text_in(&v[4]),
                },
            )
        },
    }
}

/// Reads a message from the parent from its JSON value.
pub fn parent_from(j: &Json) -> (r: Result<ParentMsg, String>)
    ensures
        match r {
            Ok(m) => wire::gives(wire::read_parent(j.tree()), m@),
            Err(e) => wire::fails(wire::read_parent(j.tree()), e@),
        },
{
    let kind = match tag_from("internally tagged enum ParentMsg", j) {
        Ok(k) => k,
        Err(e) => return Err(e),
    };
    let k = kind.as_str();
    let content = content_of(j);
    let c = &content;
    if same(k, "tool_result") {
        match tool_result_from("struct variant ParentMsg::ToolResult", c) {
            Err(e) => Err(e),
            Ok(p) => Ok(ParentMsg::ToolResult { call_id: p.0, result: p.1 }),
        }
    } else if same(k, "tool_batch_result") {
        batch_from(c)
    } else if same(k, "cancel") {
        match nothing_from(c) {
            Err(e) => Err(e),
            Ok(_) => Ok(ParentMsg::Cancel),
        }
    } else if same(k, "exit") {
        match nothing_from(c) {
            Err(e) => Err(e),
            Ok(_) => Ok(ParentMsg::Exit),
        }
    } else if same(k, "ls") {
        match text_from("path", "struct variant ParentMsg::Ls", c) {
            Err(e) => Err(e),
            Ok(path) => Ok(ParentMsg::Ls { path }),
        }
    } else if same(k, "pwd") {
        match nothing_from(c) {
            Err(e) => Err(e),
            Ok(_) => Ok(ParentMsg::Pwd),
        }
    } else if same(k, "cd") {
        match text_from("path", "struct variant ParentMsg::Cd", c) {
            Err(e) => Err(e),
            Ok(path) => Ok(ParentMsg::Cd { path }),
        }
    } else if same(k, "exec") {
        match text_from("command", "struct variant ParentMsg::Exec", c) {
            Err(e) => Err(e),
            Ok(command) => Ok(ParentMsg::Exec { command }),
        }
    } else if same(k, "run") {
        run_from(c)
    } else if same(k, "tool_call") {
        match tool_call_from("struct variant ParentMsg::ToolCall", c) {
            Err(e) => Err(e),
            Ok(c) => Ok(
                ParentMsg::ToolCall {
                    call_id: c.call_id,
                    name: c.name,
                    args: c.args,
                    kwargs: c.kwargs,
                },
            ),
        }
    } else {
        Err(
            unknown_kind(
                k,
                "`tool_result`, `tool_batch_result`, `cancel`, `exit`, `ls`, `pwd`, `cd`, `exec`, `run`, `tool_call`",
            ),
        )
    }
}

} // verus!
