//! The JSON form of the messages between parent and child.
//!
//! A message is an object with a `type` field and one field for each part of it. Unknown
//! fields are passed over, and an optional part that is missing or `null` is absent. When a
//! message is read, an array of the kind and the parts, in their order, stands for the same.
//!
//! What is read is the value that `serde_json` makes of the text. Of a name that an object
//! holds twice it keeps the last value, and it does not keep where in the text a value stood:
//! the reason for a message that does not fit says what is wrong with it, not where.

use vstd::prelude::*;

use crate::json;
use crate::json::{Json, JsonTree};
use crate::text;

verus! {

/// The model of a tool result.
pub struct PayloadView {
    pub output: Option<Seq<char>>,
    pub error: Option<Seq<char>>,
}

/// The model of a directory entry.
pub struct EntryView {
    pub name: Seq<char>,
    pub is_dir: bool,
}

/// The model of a handshake.
pub struct HandshakeView {
    pub name: Seq<char>,
    pub version: u32,
}

/// The model of a setup message.
pub struct SetupView {
    pub code: Seq<char>,
    pub timeout_secs: u64,
    pub max_memory: usize,
}

/// The model of a message from the child.
#[allow(inconsistent_fields)]
pub enum ChildMsgView {
    Stdout { text: Seq<char> },
    ToolCall {
        call_id: u32,
        name: Seq<char>,
        args: Seq<JsonTree>,
        kwargs: Seq<(Seq<char>, JsonTree)>,
    },
    Done { output: Option<JsonTree>, stdout: Seq<char>, error: Option<Seq<char>> },
    LsResult { entries: Seq<EntryView> },
    PwdResult { path: Seq<char> },
    CdResult,
    ExecResult { output: Seq<char>, is_error: bool },
    ToolResult { call_id: u32, result: PayloadView },
}

/// The model of a message from the parent.
pub enum ParentMsgView {
    ToolResult { call_id: u32, result: PayloadView },
    ToolBatchResult { results: Seq<(u32, PayloadView)> },
    Cancel,
    Exit,
    Ls { path: Seq<char> },
    Pwd,
    Cd { path: Seq<char> },
    Exec { command: Seq<char> },
    Run {
        call_id: u32,
        code: Seq<char>,
        timeout_secs: u64,
        max_memory: usize,
        config: Seq<char>,
    },
    ToolCall {
        call_id: u32,
        name: Seq<char>,
        args: Seq<JsonTree>,
        kwargs: Seq<(Seq<char>, JsonTree)>,
    },
}

/// The characters of an optional string.
pub open spec fn opt_view(s: Option<String>) -> Option<Seq<char>> {
    match s {
        Some(t) => Some(t@),
        None => None,
    }
}

/// The tree of an optional value.
pub open spec fn opt_tree(j: Option<Json>) -> Option<JsonTree> {
    match j {
        Some(v) => Some(v.tree()),
        None => None,
    }
}

// ── Trees of the messages ──

/// A field of an object.
pub open spec fn fld(key: Seq<char>, value: JsonTree) -> (Seq<char>, JsonTree) {
    (key, value)
}

/// An optional string: `null` when it is absent.
pub open spec fn opt_str_tree(s: Option<Seq<char>>) -> JsonTree {
    match s {
        Some(t) => JsonTree::Str(t),
        None => JsonTree::Null,
    }
}

/// An optional value: `null` when it is absent.
pub open spec fn opt_value_tree(t: Option<JsonTree>) -> JsonTree {
    match t {
        Some(v) => v,
        None => JsonTree::Null,
    }
}

/// Named values, as an array of two-element arrays.
pub open spec fn kwargs_tree(kwargs: Seq<(Seq<char>, JsonTree)>) -> JsonTree {
    JsonTree::Array(
        Seq::new(
            kwargs.len(),
            |i: int| JsonTree::Array(seq![JsonTree::Str(kwargs[i].0), kwargs[i].1]),
        ),
    )
}

/// A directory entry.
pub open spec fn entry_tree(e: EntryView) -> JsonTree {
    JsonTree::Object(
        seq![fld("name"@, JsonTree::Str(e.name)), fld("is_dir"@, JsonTree::Bool(e.is_dir))],
    )
}

/// A tool result.
pub open spec fn payload_tree(p: PayloadView) -> JsonTree {
    JsonTree::Object(
        seq![fld("output"@, opt_str_tree(p.output)), fld("error"@, opt_str_tree(p.error))],
    )
}

/// A handshake.
pub open spec fn handshake_tree(h: HandshakeView) -> JsonTree {
    JsonTree::Object(
        seq![
            fld("name"@, JsonTree::Str(h.name)),
            fld("version"@, JsonTree::Int(h.version as int)),
        ],
    )
}

/// A setup message.
pub open spec fn setup_tree(m: SetupView) -> JsonTree {
    JsonTree::Object(
        seq![
            fld("code"@, JsonTree::Str(m.code)),
            fld("timeout_secs"@, JsonTree::Int(m.timeout_secs as int)),
            fld("max_memory"@, JsonTree::Int(m.max_memory as int)),
        ],
    )
}

/// The field that tells the kind of a message.
pub open spec fn tag(kind: Seq<char>) -> (Seq<char>, JsonTree) {
    fld("type"@, JsonTree::Str(kind))
}

/// The fields of a request to run a tool.
pub open spec fn tool_call_fields(
    call_id: u32,
    name: Seq<char>,
    args: Seq<JsonTree>,
    kwargs: Seq<(Seq<char>, JsonTree)>,
) -> Seq<(Seq<char>, JsonTree)> {
    seq![
        tag("tool_call"@),
        fld("call_id"@, JsonTree::Int(call_id as int)),
        fld("name"@, JsonTree::Str(name)),
        fld("args"@, JsonTree::Array(args)),
        fld("kwargs"@, kwargs_tree(kwargs)),
    ]
}

/// The fields of a tool result for one call.
pub open spec fn tool_result_fields(call_id: u32, result: PayloadView) -> Seq<
    (Seq<char>, JsonTree),
> {
    seq![
        tag("tool_result"@),
        fld("call_id"@, JsonTree::Int(call_id as int)),
        fld("output"@, opt_str_tree(result.output)),
        fld("error"@, opt_str_tree(result.error)),
    ]
}

/// The fields of a message from the child.
pub open spec fn child_fields(m: ChildMsgView) -> Seq<(Seq<char>, JsonTree)> {
    match m {
        ChildMsgView::Stdout { text } => seq![tag("stdout"@), fld("text"@, JsonTree::Str(text))],
        ChildMsgView::ToolCall { call_id, name, args, kwargs } => tool_call_fields(
            call_id,
            name,
            args,
            kwargs,
        ),
        ChildMsgView::Done { output, stdout, error } => seq![
            tag("done"@),
            fld("output"@, opt_value_tree(output)),
            fld("stdout"@, JsonTree::Str(stdout)),
            fld("error"@, opt_str_tree(error)),
        ],
        ChildMsgView::LsResult { entries } => seq![
            tag("ls_result"@),
            fld(
                "entries"@,
                JsonTree::Array(Seq::new(entries.len(), |i: int| entry_tree(entries[i]))),
            ),
        ],
        ChildMsgView::PwdResult { path } => seq![
            tag("pwd_result"@),
            fld("path"@, JsonTree::Str(path)),
        ],
        ChildMsgView::CdResult => seq![tag("cd_result"@)],
        ChildMsgView::ExecResult { output, is_error } => seq![
            tag("exec_result"@),
            fld("output"@, JsonTree::Str(output)),
            fld("is_error"@, JsonTree::Bool(is_error)),
        ],
        ChildMsgView::ToolResult { call_id, result } => tool_result_fields(call_id, result),
    }
}

/// The fields of a message from the parent.
pub open spec fn parent_fields(m: ParentMsgView) -> Seq<(Seq<char>, JsonTree)> {
    match m {
        ParentMsgView::ToolResult { call_id, result } => tool_result_fields(call_id, result),
        ParentMsgView::ToolBatchResult { results } => seq![
            tag("tool_batch_result"@),
            fld(
                "results"@,
                JsonTree::Array(
                    Seq::new(
                        results.len(),
                        |i: int|
                            JsonTree::Array(
                                seq![
                                    JsonTree::Int(results[i].0 as int),
                                    payload_tree(results[i].1),
                                ],
                            ),
                    ),
                ),
            ),
        ],
        ParentMsgView::Cancel => seq![tag("cancel"@)],
        ParentMsgView::Exit => seq![tag("exit"@)],
        ParentMsgView::Ls { path } => seq![tag("ls"@), fld("path"@, JsonTree::Str(path))],
        ParentMsgView::Pwd => seq![tag("pwd"@)],
        ParentMsgView::Cd { path } => seq![tag("cd"@), fld("path"@, JsonTree::Str(path))],
        ParentMsgView::Exec { command } => seq![
            tag("exec"@),
            fld("command"@, JsonTree::Str(command)),
        ],
        ParentMsgView::Run { call_id, code, timeout_secs, max_memory, config } => seq![
            tag("run"@),
            fld("call_id"@, JsonTree::Int(call_id as int)),
            fld("code"@, JsonTree::Str(code)),
            fld("timeout_secs"@, JsonTree::Int(timeout_secs as int)),
            fld("max_memory"@, JsonTree::Int(max_memory as int)),
            fld("config"@, JsonTree::Str(config)),
        ],
        ParentMsgView::ToolCall { call_id, name, args, kwargs } => tool_call_fields(
            call_id,
            name,
            args,
            kwargs,
        ),
    }
}

/// The tree of a message from the child.
pub open spec fn child_tree(m: ChildMsgView) -> JsonTree {
    JsonTree::Object(child_fields(m))
}

/// The tree of a message from the parent.
pub open spec fn parent_tree(m: ParentMsgView) -> JsonTree {
    JsonTree::Object(parent_fields(m))
}

// ── Reading the fields of a message ──

/// Whether a reader gave this value.
pub open spec fn gives<T>(r: Result<T, Seq<char>>, value: T) -> bool {
    r == Ok::<T, Seq<char>>(value)
}

/// Whether a reader failed for this reason.
pub open spec fn fails<T>(r: Result<T, Seq<char>>, reason: Seq<char>) -> bool {
    r == Err::<T, Seq<char>>(reason)
}

/// What a field holds.
#[derive(Debug, Clone, Copy, PartialEq, Eq, Structural)]
pub enum Kind {
    /// A string.
    Text,
    /// A boolean.
    Flag,
    /// An integer of 32 bits.
    U32,
    /// An integer of 64 bits.
    U64,
    /// An integer of the size of an address.
    Usize,
    /// An array.
    List,
    /// An array of names with values, each in an array of two.
    Pairs,
    /// A string, or nothing.
    MaybeText,
    /// Any value, or nothing.
    Anything,
}

/// The fields of a message or of a part of it, with what they hold.
pub type Schema = Seq<(Seq<char>, Kind)>;

/// How a value that does not fit is described.
pub open spec fn described(t: JsonTree) -> Seq<char> {
    match t {
        JsonTree::Null => "null"@,
        JsonTree::Bool(b) => if b {
            "boolean `true`"@
        } else {
            "boolean `false`"@
        },
        JsonTree::Int(i) => "integer `"@ + text::decimal_int(i) + "`"@,
        JsonTree::Float(_) => "floating point `"@ + json::json_text(t) + "`"@,
        JsonTree::Str(s) => "string "@ + text::debug_text(s),
        JsonTree::Array(_) => "sequence"@,
        JsonTree::Object(_) => "map"@,
    }
}

/// The reason for a value of another type than the expected one.
pub open spec fn bad_type(t: JsonTree, expected: Seq<char>) -> Seq<char> {
    "invalid type: "@ + described(t) + ", expected "@ + expected
}

/// The reason for a value that is out of range.
pub open spec fn bad_value(t: JsonTree, expected: Seq<char>) -> Seq<char> {
    "invalid value: "@ + described(t) + ", expected "@ + expected
}

/// The reason for an array of another length than the expected one.
pub open spec fn bad_length(n: int, expected: Seq<char>) -> Seq<char> {
    "invalid length "@ + text::decimal_int(n) + ", expected "@ + expected
}

/// So many elements.
pub open spec fn elements(n: int) -> Seq<char> {
    if n == 1 {
        "1 element"@
    } else {
        text::decimal_int(n) + " elements"@
    }
}

/// The reason for an array with more elements than expected.
pub open spec fn too_long(len: int, n: int) -> Seq<char> {
    bad_length(len, elements(n) + " in sequence"@)
}

/// The reason for a field that is not there.
pub open spec fn missing_field(name: Seq<char>) -> Seq<char> {
    "missing field `"@ + name + "`"@
}

/// What is expected in a field.
pub open spec fn expected_in(kind: Kind) -> Seq<char> {
    match kind {
        Kind::Text | Kind::MaybeText => "a string"@,
        Kind::Flag => "a boolean"@,
        Kind::U32 => "u32"@,
        Kind::U64 => "u64"@,
        Kind::Usize => "usize"@,
        Kind::List | Kind::Pairs => "a sequence"@,
        Kind::Anything => "any value"@,
    }
}

/// The greatest integer that a field holds.
pub open spec fn greatest(kind: Kind) -> int {
    match kind {
        Kind::U32 => u32::MAX as int,
        Kind::Usize => usize::MAX as int,
        _ => u64::MAX as int,
    }
}

/// What is wrong with a name and its value.
pub open spec fn pair_complaint(t: JsonTree) -> Option<Seq<char>> {
    match t {
        JsonTree::Array(two) => if two.len() == 0 {
            Some(bad_length(0, "a tuple of size 2"@))
        } else if !(two[0] is Str) {
            Some(bad_type(two[0], "a string"@))
        } else if two.len() == 1 {
            Some(bad_length(1, "a tuple of size 2"@))
        } else if two.len() > 2 {
            Some(too_long(two.len() as int, 2))
        } else {
            None
        },
        _ => Some(bad_type(t, "a tuple of size 2"@)),
    }
}

/// What is wrong with the first pair that does not fit, from a place on.
pub open spec fn pairs_complaint(items: Seq<JsonTree>, from: int) -> Option<Seq<char>>
    decreases items.len() - from,
{
    if from >= items.len() {
        None
    } else if pair_complaint(items[from]) is Some {
        pair_complaint(items[from])
    } else {
        pairs_complaint(items, from + 1)
    }
}

/// What is wrong with the value of a field.
pub open spec fn complaint(kind: Kind, t: JsonTree) -> Option<Seq<char>> {
    match (kind, t) {
        (Kind::Text | Kind::MaybeText, JsonTree::Str(_)) => None,
        (Kind::MaybeText, JsonTree::Null) => None,
        (Kind::Flag, JsonTree::Bool(_)) => None,
        (Kind::U32 | Kind::U64 | Kind::Usize, JsonTree::Int(i)) => if 0 <= i <= greatest(kind) {
            None
        } else {
            Some(bad_value(t, expected_in(kind)))
        },
        (Kind::List, JsonTree::Array(_)) => None,
        (Kind::Pairs, JsonTree::Array(items)) => pairs_complaint(items, 0),
        (Kind::Anything, _) => None,
        _ => Some(bad_type(t, expected_in(kind))),
    }
}

/// Whether a field may be left out.
pub open spec fn optional(kind: Kind) -> bool {
    kind == Kind::MaybeText || kind == Kind::Anything
}

/// What a field of this name holds, from a place in the schema on. Other fields are passed
/// over.
pub open spec fn kind_of(schema: Schema, name: Seq<char>, from: int) -> Option<Kind>
    decreases schema.len() - from,
{
    if from >= schema.len() {
        None
    } else if schema[from].0 == name {
        Some(schema[from].1)
    } else {
        kind_of(schema, name, from + 1)
    }
}

/// What is wrong with one field of an object.
pub open spec fn field_complaint(schema: Schema, f: (Seq<char>, JsonTree)) -> Option<Seq<char>> {
    match kind_of(schema, f.0, 0) {
        Some(kind) => complaint(kind, f.1),
        None => None,
    }
}

/// What is wrong with the first field that does not fit, from a place on.
pub open spec fn fields_complaint(
    schema: Schema,
    fields: Seq<(Seq<char>, JsonTree)>,
    from: int,
) -> Option<Seq<char>>
    decreases fields.len() - from,
{
    if from >= fields.len() {
        None
    } else if field_complaint(schema, fields[from]) is Some {
        field_complaint(schema, fields[from])
    } else {
        fields_complaint(schema, fields, from + 1)
    }
}

/// The first field that is needed and not there, from a place in the schema on.
pub open spec fn first_missing(
    schema: Schema,
    fields: Seq<(Seq<char>, JsonTree)>,
    from: int,
) -> Option<Seq<char>>
    decreases schema.len() - from,
{
    if from >= schema.len() {
        None
    } else if !optional(schema[from].1) && json::field_of(fields, schema[from].0) is None {
        Some(schema[from].0)
    } else {
        first_missing(schema, fields, from + 1)
    }
}

/// What is wrong with the first element that does not fit or is not there, from a place on.
pub open spec fn items_complaint(
    schema: Schema,
    what: Seq<char>,
    items: Seq<JsonTree>,
    from: int,
) -> Option<Seq<char>>
    decreases schema.len() - from,
{
    if from >= schema.len() {
        None
    } else if from >= items.len() {
        Some(bad_length(from, what + " with "@ + elements(schema.len() as int)))
    } else if complaint(schema[from].1, items[from]) is Some {
        complaint(schema[from].1, items[from])
    } else {
        items_complaint(schema, what, items, from + 1)
    }
}

/// The value of a field: `null` where it is left out.
pub open spec fn value_in(fields: Seq<(Seq<char>, JsonTree)>, name: Seq<char>) -> JsonTree {
    match json::field_of(fields, name) {
        Some(v) => v,
        None => JsonTree::Null,
    }
}

/// The values of the fields, in the order of the schema. They stand in an object under their
/// names, or in an array one after the other. The first value that does not fit counts.
pub open spec fn read_fields(schema: Schema, what: Seq<char>, t: JsonTree) -> Result<
    Seq<JsonTree>,
    Seq<char>,
> {
    match t {
        JsonTree::Object(fields) => match fields_complaint(schema, fields, 0) {
            Some(e) => Err(e),
            None => match first_missing(schema, fields, 0) {
                Some(name) => Err(missing_field(name)),
                None => Ok(Seq::new(schema.len(), |i: int| value_in(fields, schema[i].0))),
            },
        },
        JsonTree::Array(items) => match items_complaint(schema, what, items, 0) {
            Some(e) => Err(e),
            None => Ok(items.take(schema.len() as int)),
        },
        _ => Err(bad_type(t, what)),
    }
}

/// Whether nothing follows in an array after its first elements.
pub open spec fn ends_at(t: JsonTree, n: int) -> bool {
    t matches JsonTree::Array(items) ==> items.len() <= n
}

/// The length of an array.
pub open spec fn length_of(t: JsonTree) -> int {
    match t {
        JsonTree::Array(items) => items.len() as int,
        _ => 0,
    }
}

/// The values of the fields of a message or a part of it, with nothing after them.
pub open spec fn read_whole(schema: Schema, what: Seq<char>, t: JsonTree) -> Result<
    Seq<JsonTree>,
    Seq<char>,
> {
    match read_fields(schema, what, t) {
        Err(e) => Err(e),
        Ok(values) => if ends_at(t, schema.len() as int) {
            Ok(values)
        } else {
            Err(too_long(length_of(t), schema.len() as int))
        },
    }
}

/// The values of the fields of a message that has no kind, with nothing after them.
pub open spec fn read_alone(schema: Schema, what: Seq<char>, t: JsonTree) -> Result<
    Seq<JsonTree>,
    Seq<char>,
> {
    match read_fields(schema, what, t) {
        Err(e) => Err(e),
        Ok(values) => if ends_at(t, schema.len() as int) {
            Ok(values)
        } else {
            Err("trailing characters"@)
        },
    }
}

// ── The values in the fields ──

/// The text in a field.
pub open spec fn text_in(t: JsonTree) -> Seq<char> {
    match t {
        JsonTree::Str(s) => s,
        _ => seq![],
    }
}

/// The boolean in a field.
pub open spec fn flag_in(t: JsonTree) -> bool {
    t == JsonTree::Bool(true)
}

/// The integer in a field.
pub open spec fn int_in(kind: Kind, t: JsonTree) -> int {
    match t {
        JsonTree::Int(i) if 0 <= i <= greatest(kind) => i,
        _ => 0,
    }
}

/// The values in a field with an array.
pub open spec fn list_in(t: JsonTree) -> Seq<JsonTree> {
    match t {
        JsonTree::Array(items) => items,
        _ => seq![],
    }
}

/// The text in a field that may be left out.
pub open spec fn maybe_text_in(t: JsonTree) -> Option<Seq<char>> {
    match t {
        JsonTree::Str(s) => Some(s),
        _ => None,
    }
}

/// The value in a field that may be left out.
pub open spec fn maybe_value_in(t: JsonTree) -> Option<JsonTree> {
    match t {
        JsonTree::Null => None,
        v => Some(v),
    }
}

/// A name and its value.
pub open spec fn pair_in(t: JsonTree) -> (Seq<char>, JsonTree) {
    let two = list_in(t);
    if two.len() == 2 {
        (text_in(two[0]), two[1])
    } else {
        (seq![], JsonTree::Null)
    }
}

/// The names and values in a field.
pub open spec fn pairs_in(t: JsonTree) -> Seq<(Seq<char>, JsonTree)> {
    Seq::new(list_in(t).len(), |i: int| pair_in(list_in(t)[i]))
}

// ── The parts of messages ──

/// The fields of a directory entry.
pub open spec fn entry_schema() -> Schema {
    seq![("name"@, Kind::Text), ("is_dir"@, Kind::Flag)]
}

/// A directory entry.
pub open spec fn read_entry(t: JsonTree) -> Result<EntryView, Seq<char>> {
    match read_whole(entry_schema(), "struct DirEntry"@, t) {
        Err(e) => Err(e),
        Ok(v) => Ok(EntryView { name: text_in(v[0]), is_dir: flag_in(v[1]) }),
    }
}

/// The directory entries of a list, from a place on.
pub open spec fn read_entries(items: Seq<JsonTree>, n: int) -> Result<Seq<EntryView>, Seq<char>>
    decreases n,
{
    if n <= 0 {
        Ok(seq![])
    } else {
        match read_entries(items, n - 1) {
            Err(e) => Err(e),
            Ok(before) => match read_entry(items[n - 1]) {
                Err(e) => Err(e),
                Ok(entry) => Ok(before.push(entry)),
            },
        }
    }
}

/// The fields of a tool result.
pub open spec fn payload_schema() -> Schema {
    seq![("output"@, Kind::MaybeText), ("error"@, Kind::MaybeText)]
}

/// A tool result.
pub open spec fn read_payload(t: JsonTree) -> Result<PayloadView, Seq<char>> {
    match read_whole(payload_schema(), "struct ToolResultPayload"@, t) {
        Err(e) => Err(e),
        Ok(v) => Ok(PayloadView { output: maybe_text_in(v[0]), error: maybe_text_in(v[1]) }),
    }
}

/// A call number and a tool result, in an array of two.
pub open spec fn read_result(t: JsonTree) -> Result<(u32, PayloadView), Seq<char>> {
    match t {
        JsonTree::Array(two) => if two.len() == 0 {
            Err(bad_length(0, "a tuple of size 2"@))
        } else if complaint(Kind::U32, two[0]) is Some {
            Err(complaint(Kind::U32, two[0])->Some_0)
        } else if two.len() == 1 {
            Err(bad_length(1, "a tuple of size 2"@))
        } else {
            match read_payload(two[1]) {
                Err(e) => Err(e),
                Ok(p) => if two.len() > 2 {
                    Err(too_long(two.len() as int, 2))
                } else {
                    Ok((int_in(Kind::U32, two[0]) as u32, p))
                },
            }
        },
        _ => Err(bad_type(t, "a tuple of size 2"@)),
    }
}

/// The first `n` tool results of a list.
pub open spec fn read_results(items: Seq<JsonTree>, n: int) -> Result<
    Seq<(u32, PayloadView)>,
    Seq<char>,
>
    decreases n,
{
    if n <= 0 {
        Ok(seq![])
    } else {
        match read_results(items, n - 1) {
            Err(e) => Err(e),
            Ok(before) => match read_result(items[n - 1]) {
                Err(e) => Err(e),
                Ok(r) => Ok(before.push(r)),
            },
        }
    }
}

/// The fields of a handshake.
pub open spec fn handshake_schema() -> Schema {
    seq![("name"@, Kind::Text), ("version"@, Kind::U32)]
}

/// A handshake.
pub open spec fn read_handshake(t: JsonTree) -> Result<HandshakeView, Seq<char>> {
    match read_alone(handshake_schema(), "struct Handshake"@, t) {
        Err(e) => Err(e),
        Ok(v) => Ok(HandshakeView { name: text_in(v[0]), version: int_in(Kind::U32, v[1]) as u32 }),
    }
}

/// The fields of a setup message.
pub open spec fn setup_schema() -> Schema {
    seq![
        ("code"@, Kind::Text),
        ("timeout_secs"@, Kind::U64),
        ("max_memory"@, Kind::Usize),
    ]
}

/// A setup message.
pub open spec fn read_setup(t: JsonTree) -> Result<SetupView, Seq<char>> {
    match read_alone(setup_schema(), "struct SetupMessage"@, t) {
        Err(e) => Err(e),
        Ok(v) => Ok(
            SetupView {
                code: text_in(v[0]),
                timeout_secs: int_in(Kind::U64, v[1]) as u64,
                max_memory: int_in(Kind::Usize, v[2]) as usize,
            },
        ),
    }
}

/// The parts of a request to run a tool.
pub struct ToolCallView {
    pub call_id: u32,
    pub name: Seq<char>,
    pub args: Seq<JsonTree>,
    pub kwargs: Seq<(Seq<char>, JsonTree)>,
}

/// The fields of a request to run a tool.
pub open spec fn tool_call_schema() -> Schema {
    seq![
        ("call_id"@, Kind::U32),
        ("name"@, Kind::Text),
        ("args"@, Kind::List),
        ("kwargs"@, Kind::Pairs),
    ]
}

/// A request to run a tool.
pub open spec fn read_tool_call(what: Seq<char>, t: JsonTree) -> Result<ToolCallView, Seq<char>> {
    match read_whole(tool_call_schema(), what, t) {
        Err(e) => Err(e),
        Ok(v) => Ok(
            ToolCallView {
                call_id: int_in(Kind::U32, v[0]) as u32,
                name: text_in(v[1]),
                args: list_in(v[2]),
                kwargs: pairs_in(v[3]),
            },
        ),
    }
}

/// The field with the number of a call.
pub open spec fn call_schema() -> Schema {
    seq![("call_id"@, Kind::U32)]
}

/// A tool result for one call. Its fields stand beside the number of the call, so it is
/// always an object.
pub open spec fn read_tool_result(what: Seq<char>, t: JsonTree) -> Result<
    (u32, PayloadView),
    Seq<char>,
> {
    match t {
        JsonTree::Object(fields) => match read_fields(call_schema(), what, t) {
            Err(e) => Err(e),
            Ok(v) => match fields_complaint(payload_schema(), fields, 0) {
                Some(e) => Err(e),
                None => Ok(
                    (
                        int_in(Kind::U32, v[0]) as u32,
                        PayloadView {
                            output: maybe_text_in(value_in(fields, "output"@)),
                            error: maybe_text_in(value_in(fields, "error"@)),
                        },
                    ),
                ),
            },
        },
        _ => Err(bad_type(t, what)),
    }
}

/// A message that is nothing but its kind.
pub open spec fn read_nothing(t: JsonTree) -> Result<(), Seq<char>> {
    if ends_at(t, 0) {
        Ok(())
    } else {
        Err(too_long(length_of(t), 0))
    }
}

/// The one text of a message.
pub open spec fn read_text(name: Seq<char>, what: Seq<char>, t: JsonTree) -> Result<
    Seq<char>,
    Seq<char>,
> {
    match read_whole(seq![(name, Kind::Text)], what, t) {
        Err(e) => Err(e),
        Ok(v) => Ok(text_in(v[0])),
    }
}

// ── The kinds of messages ──

/// The kind in the value that tells it.
pub open spec fn kind_in(t: JsonTree) -> Result<Seq<char>, Seq<char>> {
    match t {
        JsonTree::Str(s) => Ok(s),
        _ => Err(bad_type(t, "variant identifier"@)),
    }
}

/// The kind of a message: the field `type` of an object, or the first element of an array.
pub open spec fn read_tag(what: Seq<char>, t: JsonTree) -> Result<Seq<char>, Seq<char>> {
    match t {
        JsonTree::Object(fields) => match json::field_of(fields, "type"@) {
            None => Err(missing_field("type"@)),
            Some(v) => kind_in(v),
        },
        JsonTree::Array(items) => if items.len() == 0 {
            Err(missing_field("type"@))
        } else {
            kind_in(items[0])
        },
        _ => Err(bad_type(t, what)),
    }
}

/// What a message holds besides its kind.
pub open spec fn content_of(t: JsonTree) -> JsonTree {
    match t {
        JsonTree::Array(items) => JsonTree::Array(
            if items.len() == 0 {
                items
            } else {
                items.skip(1)
            },
        ),
        _ => t,
    }
}

/// The reason for a message of a kind that does not exist.
pub open spec fn unknown_kind(kind: Seq<char>, kinds: Seq<char>) -> Seq<char> {
    "unknown variant `"@ + kind + "`, expected one of "@ + kinds
}

/// The kinds of messages from the child.
pub open spec fn child_kinds() -> Seq<char> {
    "`stdout`, `tool_call`, `done`, `ls_result`, `pwd_result`, `cd_result`, `exec_result`, `tool_result`"@
}

/// The kinds of messages from the parent.
pub open spec fn parent_kinds() -> Seq<char> {
    "`tool_result`, `tool_batch_result`, `cancel`, `exit`, `ls`, `pwd`, `cd`, `exec`, `run`, `tool_call`"@
}

/// The fields of the final result of a run.
pub open spec fn done_schema() -> Schema {
    seq![
        ("output"@, Kind::Anything),
        ("stdout"@, Kind::Text),
        ("error"@, Kind::MaybeText),
    ]
}

/// The final result of a run.
pub open spec fn read_done(t: JsonTree) -> Result<ChildMsgView, Seq<char>> {
    match read_whole(done_schema(), "struct variant ChildMsg::Done"@, t) {
        Err(e) => Err(e),
        Ok(v) => Ok(
            ChildMsgView::Done {
                output: maybe_value_in(v[0]),
                stdout: text_in(v[1]),
                error: maybe_text_in(v[2]),
            },
        ),
    }
}

/// A directory listing.
pub open spec fn read_ls_result(t: JsonTree) -> Result<ChildMsgView, Seq<char>> {
    match read_fields(
        seq![("entries"@, Kind::List)],
        "struct variant ChildMsg::LsResult"@,
        t,
    ) {
        Err(e) => Err(e),
        Ok(v) => match read_entries(list_in(v[0]), list_in(v[0]).len() as int) {
            Err(e) => Err(e),
            Ok(entries) => if ends_at(t, 1) {
                Ok(ChildMsgView::LsResult { entries })
            } else {
                Err(too_long(length_of(t), 1))
            },
        },
    }
}

/// The fields of the outcome of a command.
pub open spec fn exec_schema() -> Schema {
    seq![("output"@, Kind::Text), ("is_error"@, Kind::Flag)]
}

/// The outcome of a command.
pub open spec fn read_exec_result(t: JsonTree) -> Result<ChildMsgView, Seq<char>> {
    match read_whole(exec_schema(), "struct variant ChildMsg::ExecResult"@, t) {
        Err(e) => Err(e),
        Ok(v) => Ok(ChildMsgView::ExecResult { output: text_in(v[0]), is_error: flag_in(v[1]) }),
    }
}

/// A message from the child.
pub open spec fn read_child(t: JsonTree) -> Result<ChildMsgView, Seq<char>> {
    let content = content_of(t);
    match read_tag("internally tagged enum ChildMsg"@, t) {
        Err(e) => Err(e),
        Ok(kind) => if kind == "stdout"@ {
            match read_text("text"@, "struct variant ChildMsg::Stdout"@, content) {
                Err(e) => Err(e),
                Ok(text) => Ok(ChildMsgView::Stdout { text }),
            }
        } else if kind == "tool_call"@ {
            match read_tool_call("struct variant ChildMsg::ToolCall"@, content) {
                Err(e) => Err(e),
                Ok(c) => Ok(
                    ChildMsgView::ToolCall {
                        call_id: c.call_id,
                        name: c.name,
                        args: c.args,
                        kwargs: c.kwargs,
                    },
                ),
            }
        } else if kind == "done"@ {
            read_done(content)
        } else if kind == "ls_result"@ {
            read_ls_result(content)
        } else if kind == "pwd_result"@ {
            match read_text("path"@, "struct variant ChildMsg::PwdResult"@, content) {
                Err(e) => Err(e),
                Ok(path) => Ok(ChildMsgView::PwdResult { path }),
            }
        } else if kind == "cd_result"@ {
            match read_nothing(content) {
                Err(e) => Err(e),
                Ok(_) => Ok(ChildMsgView::CdResult),
            }
        } else if kind == "exec_result"@ {
            read_exec_result(content)
        } else if kind == "tool_result"@ {
            match read_tool_result("struct variant ChildMsg::ToolResult"@, content) {
                Err(e) => Err(e),
                Ok(r) => Ok(ChildMsgView::ToolResult { call_id: r.0, result: r.1 }),
            }
        } else {
            Err(unknown_kind(kind, child_kinds()))
        },
    }
}

/// A batch of tool results.
pub open spec fn read_batch(t: JsonTree) -> Result<ParentMsgView, Seq<char>> {
    match read_fields(
        seq![("results"@, Kind::List)],
        "struct variant ParentMsg::ToolBatchResult"@,
        t,
    ) {
        Err(e) => Err(e),
        Ok(v) => match read_results(list_in(v[0]), list_in(v[0]).len() as int) {
            Err(e) => Err(e),
            Ok(results) => if ends_at(t, 1) {
                Ok(ParentMsgView::ToolBatchResult { results })
            } else {
                Err(too_long(length_of(t), 1))
            },
        },
    }
}

/// The fields of a request to run code.
pub open spec fn run_schema() -> Schema {
    seq![
        ("call_id"@, Kind::U32),
        ("code"@, Kind::Text),
        ("timeout_secs"@, Kind::U64),
        ("max_memory"@, Kind::Usize),
        ("config"@, Kind::Text),
    ]
}

/// A request to run code.
pub open spec fn read_run(t: JsonTree) -> Result<ParentMsgView, Seq<char>> {
    match read_whole(run_schema(), "struct variant ParentMsg::Run"@, t) {
        Err(e) => Err(e),
        Ok(v) => Ok(
            ParentMsgView::Run {
                call_id: int_in(Kind::U32, v[0]) as u32,
                code: text_in(v[1]),
                timeout_secs: int_in(Kind::U64, v[2]) as u64,
                max_memory: int_in(Kind::Usize, v[3]) as usize,
                config: text_in(v[4]),
            },
        ),
    }
}

/// A message from the parent.
pub open spec fn read_parent(t: JsonTree) -> Result<ParentMsgView, Seq<char>> {
    let content = content_of(t);
    match read_tag("internally tagged enum ParentMsg"@, t) {
        Err(e) => Err(e),
        Ok(kind) => if kind == "tool_result"@ {
            match read_tool_result("struct variant ParentMsg::ToolResult"@, content) {
                Err(e) => Err(e),
                Ok(r) => Ok(ParentMsgView::ToolResult { call_id: r.0, result: r.1 }),
            }
        } else if kind == "tool_batch_result"@ {
            read_batch(content)
        } else if kind == "cancel"@ {
            match read_nothing(content) {
                Err(e) => Err(e),
                Ok(_) => Ok(ParentMsgView::Cancel),
            }
        } else if kind == "exit"@ {
            match read_nothing(content) {
                Err(e) => Err(e),
                Ok(_) => Ok(ParentMsgView::Exit),
            }
        } else if kind == "ls"@ {
            match read_text("path"@, "struct variant ParentMsg::Ls"@, content) {
                Err(e) => Err(e),
                Ok(path) => Ok(ParentMsgView::Ls { path }),
            }
        } else if kind == "pwd"@ {
            match read_nothing(content) {
                Err(e) => Err(e),
                Ok(_) => Ok(ParentMsgView::Pwd),
            }
        } else if kind == "cd"@ {
            match read_text("path"@, "struct variant ParentMsg::Cd"@, content) {
                Err(e) => Err(e),
                Ok(path) => Ok(ParentMsgView::Cd { path }),
            }
        } else if kind == "exec"@ {
            match read_text("command"@, "struct variant ParentMsg::Exec"@, content) {
                Err(e) => Err(e),
                Ok(command) => Ok(ParentMsgView::Exec { command }),
            }
        } else if kind == "run"@ {
            read_run(content)
        } else if kind == "tool_call"@ {
            match read_tool_call("struct variant ParentMsg::ToolCall"@, content) {
                Err(e) => Err(e),
                Ok(c) => Ok(
                    ParentMsgView::ToolCall {
                        call_id: c.call_id,
                        name: c.name,
                        args: c.args,
                        kwargs: c.kwargs,
                    },
                ),
            }
        } else {
            Err(unknown_kind(kind, parent_kinds()))
        },
    }
}

// ── What is read back ──

/// The keys of a tool result differ.
pub proof fn lemma_payload_keys(p: PayloadView)
    ensures
        json::distinct_keys(payload_tree(p)->Object_0),
{
    reveal_strlit("output");
    reveal_strlit("error");
    assert("output"@.len() == 6);
    assert("error"@.len() == 5);
}

/// The keys of a directory entry differ.
pub proof fn lemma_entry_keys(e: EntryView)
    ensures
        json::distinct_keys(entry_tree(e)->Object_0),
{
    reveal_strlit("name");
    reveal_strlit("is_dir");
    assert("name"@.len() == 4);
    assert("is_dir"@.len() == 6);
}

/// The keys of a handshake differ.
pub proof fn lemma_handshake_keys(h: HandshakeView)
    ensures
        json::distinct_keys(handshake_tree(h)->Object_0),
{
    reveal_strlit("name");
    reveal_strlit("version");
    assert("name"@.len() == 4);
    assert("version"@.len() == 7);
}

/// The keys of a setup message differ.
pub proof fn lemma_setup_keys(m: SetupView)
    ensures
        json::distinct_keys(setup_tree(m)->Object_0),
{
    reveal_strlit("code");
    reveal_strlit("timeout_secs");
    reveal_strlit("max_memory");
    assert("code"@.len() == 4);
    assert("timeout_secs"@.len() == 12);
    assert("max_memory"@.len() == 10);
}

/// The keys of a tool request differ.
proof fn lemma_tool_call_keys(
    call_id: u32,
    name: Seq<char>,
    args: Seq<JsonTree>,
    kwargs: Seq<(Seq<char>, JsonTree)>,
)
    ensures
        json::distinct_keys(tool_call_fields(call_id, name, args, kwargs)),
{
    reveal_strlit("type");
    reveal_strlit("call_id");
    reveal_strlit("name");
    reveal_strlit("args");
    reveal_strlit("kwargs");
    assert("type"@.len() == 4);
    assert("call_id"@.len() == 7);
    assert("name"@.len() == 4);
    assert("args"@.len() == 4);
    assert("kwargs"@.len() == 6);
    assert("type"@[0] != "name"@[0]);
    assert("type"@[0] != "args"@[0]);
    assert("name"@[0] != "args"@[0]);
}

/// The keys of the result of one call differ.
proof fn lemma_tool_result_keys(call_id: u32, result: PayloadView)
    ensures
        json::distinct_keys(tool_result_fields(call_id, result)),
{
    reveal_strlit("type");
    reveal_strlit("call_id");
    reveal_strlit("output");
    reveal_strlit("error");
    assert("type"@.len() == 4);
    assert("call_id"@.len() == 7);
    assert("output"@.len() == 6);
    assert("error"@.len() == 5);
}

/// The keys of a message from the child differ.
pub proof fn lemma_child_keys(m: ChildMsgView)
    ensures
        json::distinct_keys(child_fields(m)),
{
    reveal_strlit("type");
    reveal_strlit("text");
    reveal_strlit("output");
    reveal_strlit("stdout");
    reveal_strlit("error");
    reveal_strlit("entries");
    reveal_strlit("path");
    reveal_strlit("is_error");
    assert("type"@.len() == 4);
    assert("text"@.len() == 4);
    assert("output"@.len() == 6);
    assert("stdout"@.len() == 6);
    assert("error"@.len() == 5);
    assert("entries"@.len() == 7);
    assert("path"@.len() == 4);
    assert("is_error"@.len() == 8);
    assert("type"@[1] != "text"@[1]);
    assert("type"@[0] != "path"@[0]);
    assert("text"@[0] != "path"@[0]);
    assert("output"@[0] != "stdout"@[0]);
    match m {
        ChildMsgView::ToolCall { call_id, name, args, kwargs } => {
            lemma_tool_call_keys(call_id, name, args, kwargs);
        },
        ChildMsgView::ToolResult { call_id, result } => {
            lemma_tool_result_keys(call_id, result);
        },
        _ => {},
    }
}

/// The keys of a message from the parent differ.
pub proof fn lemma_parent_keys(m: ParentMsgView)
    ensures
        json::distinct_keys(parent_fields(m)),
{
    reveal_strlit("type");
    reveal_strlit("results");
    reveal_strlit("path");
    reveal_strlit("command");
    reveal_strlit("call_id");
    reveal_strlit("code");
    reveal_strlit("timeout_secs");
    reveal_strlit("max_memory");
    reveal_strlit("config");
    assert("type"@.len() == 4);
    assert("results"@.len() == 7);
    assert("path"@.len() == 4);
    assert("command"@.len() == 7);
    assert("call_id"@.len() == 7);
    assert("code"@.len() == 4);
    assert("timeout_secs"@.len() == 12);
    assert("max_memory"@.len() == 10);
    assert("config"@.len() == 6);
    assert("type"@[0] != "path"@[0]);
    assert("type"@[0] != "code"@[0]);
    assert("results"@[0] != "command"@[0]);
    assert("results"@[0] != "call_id"@[0]);
    assert("path"@[0] != "code"@[0]);
    assert("command"@[1] != "call_id"@[1]);
    match m {
        ParentMsgView::ToolCall { call_id, name, args, kwargs } => {
            lemma_tool_call_keys(call_id, name, args, kwargs);
        },
        ParentMsgView::ToolResult { call_id, result } => {
            lemma_tool_result_keys(call_id, result);
        },
        _ => {},
    }
}

/// The field at a place of an object with distinct keys.
pub proof fn lemma_field_at(fields: Seq<(Seq<char>, JsonTree)>, i: int)
    requires
        json::distinct_keys(fields),
        0 <= i < fields.len(),
    ensures
        json::field_of(fields, fields[i].0) == Some(fields[i].1),
    decreases fields.len(),
{
    if i > 0 {
        let rest = fields.drop_first();
        assert forall|a: int, b: int| 0 <= a < b < rest.len() implies (#[trigger] rest[a]).0 != (
        #[trigger] rest[b]).0 by {
            assert(rest[a] == fields[a + 1] && rest[b] == fields[b + 1]);
        }
        lemma_field_at(rest, i - 1);
        assert(rest[i - 1] == fields[i]);
        assert(fields[0].0 != fields[i].0);
    }
}

/// Fields under the names of a schema, after some others.
pub open spec fn written(
    lead: Seq<(Seq<char>, JsonTree)>,
    schema: Schema,
    values: Seq<JsonTree>,
) -> Seq<(Seq<char>, JsonTree)> {
    lead + Seq::new(schema.len(), |i: int| (schema[i].0, values[i]))
}

/// A kind that a schema gives for a name stands at a place with that name.
proof fn lemma_kind_of(schema: Schema, name: Seq<char>, from: int)
    requires
        0 <= from,
    ensures
        kind_of(schema, name, from) matches Some(k) ==> exists|j: int|
            from <= j < schema.len() && #[trigger] schema[j] == (name, k),
    decreases schema.len() - from,
{
    if from < schema.len() && schema[from].0 != name {
        lemma_kind_of(schema, name, from + 1);
    } else if from < schema.len() {
        assert(schema[from] == (name, schema[from].1));
    }
}

/// Where every field fits, none is complained of.
proof fn lemma_no_complaint(schema: Schema, fields: Seq<(Seq<char>, JsonTree)>, from: int)
    requires
        0 <= from,
        forall|i: int|
            from <= i < fields.len() ==> field_complaint(schema, #[trigger] fields[i]) is None,
    ensures
        fields_complaint(schema, fields, from) is None,
    decreases fields.len() - from,
{
    if from < fields.len() {
        lemma_no_complaint(schema, fields, from + 1);
    }
}

/// Where every field is there, none is missing.
proof fn lemma_none_missing(schema: Schema, fields: Seq<(Seq<char>, JsonTree)>, from: int)
    requires
        0 <= from,
        forall|i: int|
            from <= i < schema.len() ==> json::field_of(fields, (#[trigger] schema[i]).0) is Some,
    ensures
        first_missing(schema, fields, from) is None,
    decreases schema.len() - from,
{
    if from < schema.len() {
        lemma_none_missing(schema, fields, from + 1);
    }
}

/// Values that fit are read back from an object that holds them under their names.
proof fn lemma_read_written(
    lead: Seq<(Seq<char>, JsonTree)>,
    schema: Schema,
    what: Seq<char>,
    values: Seq<JsonTree>,
)
    requires
        values.len() == schema.len(),
        json::distinct_keys(written(lead, schema, values)),
        forall|i: int|
            0 <= i < schema.len() ==> complaint((#[trigger] schema[i]).1, values[i]) is None,
    ensures
        gives(read_fields(schema, what, JsonTree::Object(written(lead, schema, values))), values),
        gives(read_whole(schema, what, JsonTree::Object(written(lead, schema, values))), values),
        gives(read_alone(schema, what, JsonTree::Object(written(lead, schema, values))), values),
        fields_complaint(schema, written(lead, schema, values), 0) is None,
        forall|i: int|
            0 <= i < schema.len() ==> value_in(
                written(lead, schema, values),
                (#[trigger] schema[i]).0,
            ) == values[i],
{
    let fields = written(lead, schema, values);
    let n = lead.len() as int;
    assert forall|i: int| 0 <= i < fields.len() implies field_complaint(
        schema,
        #[trigger] fields[i],
    ) is None by {
        lemma_kind_of(schema, fields[i].0, 0);
        if kind_of(schema, fields[i].0, 0) is Some {
            let k = kind_of(schema, fields[i].0, 0)->Some_0;
            let j = choose|j: int| 0 <= j < schema.len() && #[trigger] schema[j] == (fields[i].0, k);
            assert(fields[n + j].0 == fields[i].0);
            assert(i == n + j);
        }
    }
    lemma_no_complaint(schema, fields, 0);
    assert forall|i: int| 0 <= i < schema.len() implies json::field_of(
        fields,
        (#[trigger] schema[i]).0,
    ) == Some(values[i]) by {
        lemma_field_at(fields, n + i);
        assert(fields[n + i] == (schema[i].0, values[i]));
    }
    lemma_none_missing(schema, fields, 0);
    assert(Seq::new(schema.len(), |i: int| value_in(fields, schema[i].0)) =~= values);
}

/// A handshake is read back as it was written.
pub proof fn law_handshake_read_back(h: HandshakeView)
    ensures
        gives(read_handshake(handshake_tree(h)), h),
        handshake_tree(h).plain_within(json::max_nesting()),
{
    reveal_with_fuel(JsonTree::plain_within, 3);
    lemma_handshake_keys(h);
    let values = seq![JsonTree::Str(h.name), JsonTree::Int(h.version as int)];
    assert(handshake_tree(h)->Object_0 =~= written(seq![], handshake_schema(), values));
    lemma_read_written(seq![], handshake_schema(), "struct Handshake"@, values);
}

/// A setup message is read back as it was written.
pub proof fn law_setup_read_back(m: SetupView)
    ensures
        gives(read_setup(setup_tree(m)), m),
        setup_tree(m).plain_within(json::max_nesting()),
{
    reveal_with_fuel(JsonTree::plain_within, 3);
    lemma_setup_keys(m);
    let values = seq![
        JsonTree::Str(m.code),
        JsonTree::Int(m.timeout_secs as int),
        JsonTree::Int(m.max_memory as int),
    ];
    assert(setup_tree(m)->Object_0 =~= written(seq![], setup_schema(), values));
    lemma_read_written(seq![], setup_schema(), "struct SetupMessage"@, values);
}

/// A tool result is read back as it was written.
proof fn lemma_payload_read_back(p: PayloadView)
    ensures
        gives(read_payload(payload_tree(p)), p),
{
    lemma_payload_keys(p);
    let values = seq![opt_str_tree(p.output), opt_str_tree(p.error)];
    assert(payload_tree(p)->Object_0 =~= written(seq![], payload_schema(), values));
    lemma_read_written(seq![], payload_schema(), "struct ToolResultPayload"@, values);
}

/// A directory entry is read back as it was written.
proof fn lemma_entry_read_back(e: EntryView)
    ensures
        gives(read_entry(entry_tree(e)), e),
{
    lemma_entry_keys(e);
    let values = seq![JsonTree::Str(e.name), JsonTree::Bool(e.is_dir)];
    assert(entry_tree(e)->Object_0 =~= written(seq![], entry_schema(), values));
    lemma_read_written(seq![], entry_schema(), "struct DirEntry"@, values);
}

/// Directory entries are read back as they were written.
proof fn lemma_entries_read_back(entries: Seq<EntryView>, items: Seq<JsonTree>, n: int)
    requires
        items.len() == entries.len(),
        0 <= n <= entries.len(),
        forall|i: int| 0 <= i < items.len() ==> #[trigger] items[i] == entry_tree(entries[i]),
    ensures
        gives(read_entries(items, n), entries.take(n)),
    decreases n,
{
    if n > 0 {
        lemma_entries_read_back(entries, items, n - 1);
        lemma_entry_read_back(entries[n - 1]);
        assert(items[n - 1] == entry_tree(entries[n - 1]));
        assert(entries.take(n) =~= entries.take(n - 1).push(entries[n - 1]));
    } else {
        assert(entries.take(0) =~= seq![]);
    }
}

/// The tree of a call number and a tool result.
pub open spec fn result_tree(r: (u32, PayloadView)) -> JsonTree {
    JsonTree::Array(seq![JsonTree::Int(r.0 as int), payload_tree(r.1)])
}

/// Tool results are read back as they were written.
proof fn lemma_results_read_back(results: Seq<(u32, PayloadView)>, items: Seq<JsonTree>, n: int)
    requires
        items.len() == results.len(),
        0 <= n <= results.len(),
        forall|i: int| 0 <= i < items.len() ==> #[trigger] items[i] == result_tree(results[i]),
    ensures
        gives(read_results(items, n), results.take(n)),
    decreases n,
{
    if n > 0 {
        lemma_results_read_back(results, items, n - 1);
        lemma_payload_read_back(results[n - 1].1);
        assert(items[n - 1] == result_tree(results[n - 1]));
        assert(results.take(n) =~= results.take(n - 1).push(results[n - 1]));
    } else {
        assert(results.take(0) =~= seq![]);
    }
}

/// Names with values are not complained of.
proof fn lemma_pairs_fit(kwargs: Seq<(Seq<char>, JsonTree)>, from: int)
    requires
        0 <= from,
    ensures
        pairs_complaint(kwargs_tree(kwargs)->Array_0, from) is None,
    decreases kwargs.len() - from,
{
    if from < kwargs.len() {
        lemma_pairs_fit(kwargs, from + 1);
    }
}

/// The fields of a request to run a tool are read back.
proof fn lemma_tool_call_read_back(c: ToolCallView, what: Seq<char>)
    ensures
        gives(
            read_tool_call(
                what,
                JsonTree::Object(tool_call_fields(c.call_id, c.name, c.args, c.kwargs)),
            ),
            c,
        ),
{
    lemma_tool_call_keys(c.call_id, c.name, c.args, c.kwargs);
    let lead = seq![tag("tool_call"@)];
    let values = seq![
        JsonTree::Int(c.call_id as int),
        JsonTree::Str(c.name),
        JsonTree::Array(c.args),
        kwargs_tree(c.kwargs),
    ];
    lemma_pairs_fit(c.kwargs, 0);
    assert(tool_call_fields(c.call_id, c.name, c.args, c.kwargs) =~= written(
        lead,
        tool_call_schema(),
        values,
    ));
    lemma_read_written(lead, tool_call_schema(), what, values);
    assert(pairs_in(kwargs_tree(c.kwargs)) =~= c.kwargs);
}

/// The fields of the result of one call are read back.
proof fn lemma_tool_result_read_back(call_id: u32, result: PayloadView, what: Seq<char>)
    ensures
        gives(
            read_tool_result(what, JsonTree::Object(tool_result_fields(call_id, result))),
            (call_id, result),
        ),
{
    lemma_tool_result_keys(call_id, result);
    let f = tool_result_fields(call_id, result);
    let lead = seq![tag("tool_result"@), fld("call_id"@, JsonTree::Int(call_id as int))];
    let values = seq![opt_str_tree(result.output), opt_str_tree(result.error)];
    assert(f =~= written(lead, payload_schema(), values));
    lemma_read_written(lead, payload_schema(), what, values);
    assert(payload_schema()[0].0 == "output"@ && payload_schema()[1].0 == "error"@);
    lemma_field_at(f, 1);
    assert forall|i: int| 0 <= i < f.len() implies field_complaint(
        call_schema(),
        #[trigger] f[i],
    ) is None by {
        lemma_kind_of(call_schema(), f[i].0, 0);
        if kind_of(call_schema(), f[i].0, 0) is Some {
            assert(f[1].0 == f[i].0);
        }
    }
    lemma_no_complaint(call_schema(), f, 0);
    lemma_none_missing(call_schema(), f, 0);
}

/// The kinds of messages from the child differ.
proof fn lemma_child_kinds()
    ensures
        "stdout"@ != "tool_call"@,
        "stdout"@ != "done"@,
        "stdout"@ != "ls_result"@,
        "stdout"@ != "pwd_result"@,
        "stdout"@ != "cd_result"@,
        "stdout"@ != "exec_result"@,
        "stdout"@ != "tool_result"@,
        "tool_call"@ != "done"@,
        "tool_call"@ != "ls_result"@,
        "tool_call"@ != "pwd_result"@,
        "tool_call"@ != "cd_result"@,
        "tool_call"@ != "exec_result"@,
        "tool_call"@ != "tool_result"@,
        "done"@ != "ls_result"@,
        "done"@ != "pwd_result"@,
        "done"@ != "cd_result"@,
        "done"@ != "exec_result"@,
        "done"@ != "tool_result"@,
        "ls_result"@ != "pwd_result"@,
        "ls_result"@ != "cd_result"@,
        "ls_result"@ != "exec_result"@,
        "ls_result"@ != "tool_result"@,
        "pwd_result"@ != "cd_result"@,
        "pwd_result"@ != "exec_result"@,
        "pwd_result"@ != "tool_result"@,
        "cd_result"@ != "exec_result"@,
        "cd_result"@ != "tool_result"@,
        "exec_result"@ != "tool_result"@,
{
    reveal_strlit("stdout");
    reveal_strlit("tool_call");
    reveal_strlit("done");
    reveal_strlit("ls_result");
    reveal_strlit("pwd_result");
    reveal_strlit("cd_result");
    reveal_strlit("exec_result");
    reveal_strlit("tool_result");
    assert("stdout"@.len() == 6);
    assert("tool_call"@.len() == 9);
    assert("done"@.len() == 4);
    assert("ls_result"@.len() == 9);
    assert("pwd_result"@.len() == 10);
    assert("cd_result"@.len() == 9);
    assert("exec_result"@.len() == 11);
    assert("tool_result"@.len() == 11);
    assert("tool_call"@[0] != "ls_result"@[0]);
    assert("tool_call"@[0] != "cd_result"@[0]);
    assert("ls_result"@[0] != "cd_result"@[0]);
    assert("exec_result"@[0] != "tool_result"@[0]);
}

/// Whether a message from the child holds a `null` where the absence of a value is written
/// in the same way.
pub open spec fn holds_null_output(m: ChildMsgView) -> bool {
    m matches ChildMsgView::Done { output: Some(JsonTree::Null), .. }
}

/// The one text of a message is read back.
proof fn lemma_text_read_back(kind: Seq<char>, name: Seq<char>, what: Seq<char>, text: Seq<char>)
    requires
        name != "type"@,
    ensures
        gives(
            read_text(
                name,
                what,
                JsonTree::Object(seq![tag(kind), fld(name, JsonTree::Str(text))]),
            ),
            text,
        ),
{
    let lead = seq![tag(kind)];
    let values = seq![JsonTree::Str(text)];
    let schema: Schema = seq![(name, Kind::Text)];
    assert(seq![tag(kind), fld(name, JsonTree::Str(text))] =~= written(lead, schema, values));
    lemma_read_written(lead, schema, what, values);
}

/// A message from the child is read back as it was written. A run whose result is `null`
/// is not told apart from one without a result.
pub proof fn law_child_read_back(m: ChildMsgView)
    requires
        !holds_null_output(m),
    ensures
        gives(read_child(child_tree(m)), m),
{
    lemma_child_keys(m);
    lemma_child_kinds();
    let f = child_fields(m);
    lemma_field_at(f, 0);
    assert(f.len() > 1 ==> f[0].0 != f[1].0);
    let lead = seq![f[0]];
    match m {
        ChildMsgView::Stdout { text } => {
            lemma_text_read_back("stdout"@, "text"@, "struct variant ChildMsg::Stdout"@, text);
        },
        ChildMsgView::PwdResult { path } => {
            lemma_text_read_back(
                "pwd_result"@,
                "path"@,
                "struct variant ChildMsg::PwdResult"@,
                path,
            );
        },
        ChildMsgView::ToolCall { call_id, name, args, kwargs } => {
            lemma_tool_call_read_back(
                ToolCallView { call_id, name, args, kwargs },
                "struct variant ChildMsg::ToolCall"@,
            );
        },
        ChildMsgView::ToolResult { call_id, result } => {
            lemma_tool_result_read_back(call_id, result, "struct variant ChildMsg::ToolResult"@);
        },
        ChildMsgView::Done { output, stdout, error } => {
            let values = seq![opt_value_tree(output), JsonTree::Str(stdout), opt_str_tree(error)];
            assert(f =~= written(lead, done_schema(), values));
            lemma_read_written(lead, done_schema(), "struct variant ChildMsg::Done"@, values);
        },
        ChildMsgView::ExecResult { output, is_error } => {
            let values = seq![JsonTree::Str(output), JsonTree::Bool(is_error)];
            assert(f =~= written(lead, exec_schema(), values));
            lemma_read_written(lead, exec_schema(), "struct variant ChildMsg::ExecResult"@, values);
        },
        ChildMsgView::LsResult { entries } => {
            let items = f[1].1->Array_0;
            let schema: Schema = seq![("entries"@, Kind::List)];
            let values = seq![f[1].1];
            assert(f =~= written(lead, schema, values));
            lemma_read_written(lead, schema, "struct variant ChildMsg::LsResult"@, values);
            lemma_entries_read_back(entries, items, entries.len() as int);
            assert(entries.take(entries.len() as int) =~= entries);
        },
        ChildMsgView::CdResult => {},
    }
}

/// The kinds of messages from the parent differ.
proof fn lemma_parent_kinds()
    ensures
        "tool_result"@ != "tool_batch_result"@,
        "tool_result"@ != "cancel"@,
        "tool_result"@ != "exit"@,
        "tool_result"@ != "ls"@,
        "tool_result"@ != "pwd"@,
        "tool_result"@ != "cd"@,
        "tool_result"@ != "exec"@,
        "tool_result"@ != "run"@,
        "tool_result"@ != "tool_call"@,
        "tool_batch_result"@ != "cancel"@,
        "tool_batch_result"@ != "exit"@,
        "tool_batch_result"@ != "ls"@,
        "tool_batch_result"@ != "pwd"@,
        "tool_batch_result"@ != "cd"@,
        "tool_batch_result"@ != "exec"@,
        "tool_batch_result"@ != "run"@,
        "tool_batch_result"@ != "tool_call"@,
        "cancel"@ != "exit"@,
        "cancel"@ != "ls"@,
        "cancel"@ != "pwd"@,
        "cancel"@ != "cd"@,
        "cancel"@ != "exec"@,
        "cancel"@ != "run"@,
        "cancel"@ != "tool_call"@,
        "exit"@ != "ls"@,
        "exit"@ != "pwd"@,
        "exit"@ != "cd"@,
        "exit"@ != "exec"@,
        "exit"@ != "run"@,
        "exit"@ != "tool_call"@,
        "ls"@ != "pwd"@,
        "ls"@ != "cd"@,
        "ls"@ != "exec"@,
        "ls"@ != "run"@,
        "ls"@ != "tool_call"@,
        "pwd"@ != "cd"@,
        "pwd"@ != "exec"@,
        "pwd"@ != "run"@,
        "pwd"@ != "tool_call"@,
        "cd"@ != "exec"@,
        "cd"@ != "run"@,
        "cd"@ != "tool_call"@,
        "exec"@ != "run"@,
        "exec"@ != "tool_call"@,
        "run"@ != "tool_call"@,
{
    reveal_strlit("tool_result");
    reveal_strlit("tool_batch_result");
    reveal_strlit("cancel");
    reveal_strlit("exit");
    reveal_strlit("ls");
    reveal_strlit("pwd");
    reveal_strlit("cd");
    reveal_strlit("exec");
    reveal_strlit("run");
    reveal_strlit("tool_call");
    assert("tool_result"@.len() == 11);
    assert("tool_batch_result"@.len() == 17);
    assert("cancel"@.len() == 6);
    assert("exit"@.len() == 4);
    assert("ls"@.len() == 2);
    assert("pwd"@.len() == 3);
    assert("cd"@.len() == 2);
    assert("exec"@.len() == 4);
    assert("run"@.len() == 3);
    assert("tool_call"@.len() == 9);
    assert("exit"@[2] != "exec"@[2]);
    assert("ls"@[0] != "cd"@[0]);
    assert("pwd"@[0] != "run"@[0]);
}

/// A message from the parent is read back as it was written.
pub proof fn law_parent_read_back(m: ParentMsgView)
    ensures
        gives(read_parent(parent_tree(m)), m),
{
    lemma_parent_keys(m);
    lemma_parent_kinds();
    let f = parent_fields(m);
    lemma_field_at(f, 0);
    assert(f.len() > 1 ==> f[0].0 != f[1].0);
    let lead = seq![f[0]];
    match m {
        ParentMsgView::Ls { path } => {
            lemma_text_read_back("ls"@, "path"@, "struct variant ParentMsg::Ls"@, path);
        },
        ParentMsgView::Cd { path } => {
            lemma_text_read_back("cd"@, "path"@, "struct variant ParentMsg::Cd"@, path);
        },
        ParentMsgView::Exec { command } => {
            lemma_text_read_back("exec"@, "command"@, "struct variant ParentMsg::Exec"@, command);
        },
        ParentMsgView::ToolCall { call_id, name, args, kwargs } => {
            lemma_tool_call_read_back(
                ToolCallView { call_id, name, args, kwargs },
                "struct variant ParentMsg::ToolCall"@,
            );
        },
        ParentMsgView::ToolResult { call_id, result } => {
            lemma_tool_result_read_back(call_id, result, "struct variant ParentMsg::ToolResult"@);
        },
        ParentMsgView::ToolBatchResult { results } => {
            let items = f[1].1->Array_0;
            let schema: Schema = seq![("results"@, Kind::List)];
            let values = seq![f[1].1];
            assert(f =~= written(lead, schema, values));
            lemma_read_written(
                lead,
                schema,
                "struct variant ParentMsg::ToolBatchResult"@,
                values,
            );
            lemma_results_read_back(results, items, results.len() as int);
            assert(results.take(results.len() as int) =~= results);
        },
        ParentMsgView::Run { call_id, code, timeout_secs, max_memory, config } => {
            let values = seq![
                JsonTree::Int(call_id as int),
                JsonTree::Str(code),
                JsonTree::Int(timeout_secs as int),
                JsonTree::Int(max_memory as int),
                JsonTree::Str(config),
            ];
            assert(f =~= written(lead, run_schema(), values));
            lemma_read_written(lead, run_schema(), "struct variant ParentMsg::Run"@, values);
        },
        _ => {},
    }
}

/// Whether the values that a request carries hold no fractional number and do not nest too
/// deep to be read back.
pub open spec fn plain_request(args: Seq<JsonTree>, kwargs: Seq<(Seq<char>, JsonTree)>) -> bool {
    &&& forall|i: int|
        0 <= i < args.len() ==> (#[trigger] args[i]).plain_within(json::max_nesting() - 2)
    &&& forall|i: int|
        0 <= i < kwargs.len() ==> (#[trigger] kwargs[i]).1.plain_within(json::max_nesting() - 3)
}

/// Whether what a message from the child carries can be read back.
pub open spec fn plain_child(m: ChildMsgView) -> bool {
    match m {
        ChildMsgView::ToolCall { args, kwargs, .. } => plain_request(args, kwargs),
        ChildMsgView::Done { output: Some(t), .. } => t.plain_within(json::max_nesting() - 1),
        _ => true,
    }
}

/// Whether what a message from the parent carries can be read back.
pub open spec fn plain_parent(m: ParentMsgView) -> bool {
    match m {
        ParentMsgView::ToolCall { args, kwargs, .. } => plain_request(args, kwargs),
        _ => true,
    }
}

proof fn lemma_plain_tool_call(c: ToolCallView)
    requires
        plain_request(c.args, c.kwargs),
    ensures
        JsonTree::Object(
            tool_call_fields(c.call_id, c.name, c.args, c.kwargs),
        ).plain_within(json::max_nesting()),
{
    reveal_with_fuel(JsonTree::plain_within, 3);
    let f = tool_call_fields(c.call_id, c.name, c.args, c.kwargs);
    let n = json::max_nesting();
    assert(f[3].1.plain_within(n - 1));
    let items = kwargs_tree(c.kwargs)->Array_0;
    assert forall|i: int| 0 <= i < items.len() implies (#[trigger] items[i]).plain_within(
        n - 2,
    ) by {
        let two = items[i]->Array_0;
        assert(c.kwargs[i].1.plain_within(n - 3));
        assert(two[0].plain_within(n - 3));
        assert(two[1].plain_within(n - 3));
    }
    assert(f[4].1.plain_within(n - 1));
}

/// What a child message carries decides whether its tree can be read back.
pub proof fn lemma_plain_child(m: ChildMsgView)
    requires
        plain_child(m),
    ensures
        child_tree(m).plain_within(json::max_nesting()),
{
    reveal_with_fuel(JsonTree::plain_within, 3);
    let n = json::max_nesting();
    match m {
        ChildMsgView::ToolCall { call_id, name, args, kwargs } => {
            lemma_plain_tool_call(ToolCallView { call_id, name, args, kwargs });
        },
        ChildMsgView::LsResult { entries } => {
            let items = child_fields(m)[1].1->Array_0;
            assert forall|i: int| 0 <= i < items.len() implies (#[trigger] items[i]).plain_within(
                n - 2,
            ) by {
                let f = entry_tree(entries[i])->Object_0;
                assert(f[0].1.plain_within(n - 3));
                assert(f[1].1.plain_within(n - 3));
            }
            assert(child_fields(m)[1].1.plain_within(n - 1));
        },
        _ => {},
    }
}

/// What a parent message carries decides whether its tree can be read back.
pub proof fn lemma_plain_parent(m: ParentMsgView)
    requires
        plain_parent(m),
    ensures
        parent_tree(m).plain_within(json::max_nesting()),
{
    reveal_with_fuel(JsonTree::plain_within, 3);
    let n = json::max_nesting();
    match m {
        ParentMsgView::ToolCall { call_id, name, args, kwargs } => {
            lemma_plain_tool_call(ToolCallView { call_id, name, args, kwargs });
        },
        ParentMsgView::ToolBatchResult { results } => {
            let items = parent_fields(m)[1].1->Array_0;
            assert forall|i: int| 0 <= i < items.len() implies (#[trigger] items[i]).plain_within(
                n - 2,
            ) by {
                let two = items[i]->Array_0;
                let f = payload_tree(results[i].1)->Object_0;
                assert(f[0].1.plain_within(n - 4));
                assert(f[1].1.plain_within(n - 4));
                assert(two[0].plain_within(n - 3));
                assert(two[1].plain_within(n - 3));
            }
            assert(parent_fields(m)[1].1.plain_within(n - 1));
        },
        _ => {},
    }
}

// ── What the messages look like ──

/// A handshake and a setup message are objects with these fields, and nothing else.
pub proof fn law_first_messages_on_the_wire(h: HandshakeView, m: SetupView)
    ensures
        handshake_tree(h) == JsonTree::Object(
            seq![
                ("name"@, JsonTree::Str(h.name)),
                ("version"@, JsonTree::Int(h.version as int)),
            ],
        ),
        setup_tree(m) == JsonTree::Object(
            seq![
                ("code"@, JsonTree::Str(m.code)),
                ("timeout_secs"@, JsonTree::Int(m.timeout_secs as int)),
                ("max_memory"@, JsonTree::Int(m.max_memory as int)),
            ],
        ),
{
}

/// A message from the child is an object with its kind under `type` and what it carries under
/// these names, where nothing is `null`.
pub proof fn law_child_messages_on_the_wire(m: ChildMsgView)
    ensures
        m matches ChildMsgView::Stdout { text } ==> child_tree(m) == JsonTree::Object(
            seq![("type"@, JsonTree::Str("stdout"@)), ("text"@, JsonTree::Str(text))],
        ),
        m matches ChildMsgView::ToolCall { call_id, name, args, kwargs } ==> child_tree(m)
            == JsonTree::Object(
            seq![
                ("type"@, JsonTree::Str("tool_call"@)),
                ("call_id"@, JsonTree::Int(call_id as int)),
                ("name"@, JsonTree::Str(name)),
                ("args"@, JsonTree::Array(args)),
                ("kwargs"@, kwargs_tree(kwargs)),
            ],
        ),
        m matches ChildMsgView::Done { output, stdout, error } ==> (child_tree(m) matches
            JsonTree::Object(fields) && fields.len() == 4 && fields[0] == (
            "type"@,
            JsonTree::Str("done"@),
        ) && fields[1].0 == "output"@ && fields[1].1 == (match output {
            Some(v) => v,
            None => JsonTree::Null,
        }) && fields[2] == ("stdout"@, JsonTree::Str(stdout)) && fields[3].0 == "error"@
            && fields[3].1 == (match error {
            Some(e) => JsonTree::Str(e),
            None => JsonTree::Null,
        })),
        m matches ChildMsgView::LsResult { entries } ==> (child_tree(m) matches JsonTree::Object(
            fields,
        ) && fields.len() == 2 && fields[0] == ("type"@, JsonTree::Str("ls_result"@)) && fields[1].0
            == "entries"@ && (fields[1].1 matches JsonTree::Array(items) && items.len()
            == entries.len() && forall|i: int|
            0 <= i < items.len() ==> #[trigger] items[i] == JsonTree::Object(
                seq![
                    ("name"@, JsonTree::Str(entries[i].name)),
                    ("is_dir"@, JsonTree::Bool(entries[i].is_dir)),
                ],
            ))),
        m matches ChildMsgView::PwdResult { path } ==> child_tree(m) == JsonTree::Object(
            seq![("type"@, JsonTree::Str("pwd_result"@)), ("path"@, JsonTree::Str(path))],
        ),
        m is CdResult ==> child_tree(m) == JsonTree::Object(
            seq![("type"@, JsonTree::Str("cd_result"@))],
        ),
        m matches ChildMsgView::ExecResult { output, is_error } ==> child_tree(m)
            == JsonTree::Object(
            seq![
                ("type"@, JsonTree::Str("exec_result"@)),
                ("output"@, JsonTree::Str(output)),
                ("is_error"@, JsonTree::Bool(is_error)),
            ],
        ),
        m matches ChildMsgView::ToolResult { call_id, result } ==> child_tree(m)
            == JsonTree::Object(
            seq![
                ("type"@, JsonTree::Str("tool_result"@)),
                ("call_id"@, JsonTree::Int(call_id as int)),
                (
                    "output"@,
                    match result.output {
                        Some(o) => JsonTree::Str(o),
                        None => JsonTree::Null,
                    },
                ),
                (
                    "error"@,
                    match result.error {
                        Some(e) => JsonTree::Str(e),
                        None => JsonTree::Null,
                    },
                ),
            ],
        ),
{
    if m is ToolResult {
        let result = m->result;
        let fields = seq![
            ("type"@, JsonTree::Str("tool_result"@)),
            ("call_id"@, JsonTree::Int(m->ToolResult_call_id as int)),
            (
                "output"@,
                match result.output {
                    Some(o) => JsonTree::Str(o),
                    None => JsonTree::Null,
                },
            ),
            (
                "error"@,
                match result.error {
                    Some(e) => JsonTree::Str(e),
                    None => JsonTree::Null,
                },
            ),
        ];
        assert(child_fields(m) =~= fields);
    }
}

/// A message from the parent is an object with its kind under `type` and what it carries
/// under these names, where nothing is `null`.
pub proof fn law_parent_messages_on_the_wire(m: ParentMsgView)
    ensures
        m matches ParentMsgView::ToolResult { call_id, result } ==> parent_tree(m)
            == JsonTree::Object(
            seq![
                ("type"@, JsonTree::Str("tool_result"@)),
                ("call_id"@, JsonTree::Int(call_id as int)),
                (
                    "output"@,
                    match result.output {
                        Some(o) => JsonTree::Str(o),
                        None => JsonTree::Null,
                    },
                ),
                (
                    "error"@,
                    match result.error {
                        Some(e) => JsonTree::Str(e),
                        None => JsonTree::Null,
                    },
                ),
            ],
        ),
        m matches ParentMsgView::ToolBatchResult { results } ==> (parent_tree(m) matches
            JsonTree::Object(fields) && fields.len() == 2 && fields[0] == (
            "type"@,
            JsonTree::Str("tool_batch_result"@),
        ) && fields[1].0 == "results"@ && (fields[1].1 matches JsonTree::Array(items)
            && items.len() == results.len() && forall|i: int|
            0 <= i < items.len() ==> (#[trigger] items[i] matches JsonTree::Array(two) && two.len()
                == 2 && two[0] == JsonTree::Int(results[i].0 as int) && (two[1] matches
                JsonTree::Object(parts) && parts.len() == 2 && parts[0].0 == "output"@ && parts[0].1
                == (match results[i].1.output {
                Some(o) => JsonTree::Str(o),
                None => JsonTree::Null,
            }) && parts[1].0 == "error"@ && parts[1].1 == (match results[i].1.error {
                Some(e) => JsonTree::Str(e),
                None => JsonTree::Null,
            }))))),
        m is Cancel ==> parent_tree(m) == JsonTree::Object(
            seq![("type"@, JsonTree::Str("cancel"@))],
        ),
        m is Exit ==> parent_tree(m) == JsonTree::Object(seq![("type"@, JsonTree::Str("exit"@))]),
        m is Pwd ==> parent_tree(m) == JsonTree::Object(seq![("type"@, JsonTree::Str("pwd"@))]),
        m matches ParentMsgView::Ls { path } ==> parent_tree(m) == JsonTree::Object(
            seq![("type"@, JsonTree::Str("ls"@)), ("path"@, JsonTree::Str(path))],
        ),
        m matches ParentMsgView::Cd { path } ==> parent_tree(m) == JsonTree::Object(
            seq![("type"@, JsonTree::Str("cd"@)), ("path"@, JsonTree::Str(path))],
        ),
        m matches ParentMsgView::Exec { command } ==> parent_tree(m) == JsonTree::Object(
            seq![("type"@, JsonTree::Str("exec"@)), ("command"@, JsonTree::Str(command))],
        ),
        m matches ParentMsgView::Run { call_id, code, timeout_secs, max_memory, config }
            ==> parent_tree(m) == JsonTree::Object(
            seq![
                ("type"@, JsonTree::Str("run"@)),
                ("call_id"@, JsonTree::Int(call_id as int)),
                ("code"@, JsonTree::Str(code)),
                ("timeout_secs"@, JsonTree::Int(timeout_secs as int)),
                ("max_memory"@, JsonTree::Int(max_memory as int)),
                ("config"@, JsonTree::Str(config)),
            ],
        ),
        m matches ParentMsgView::ToolCall { call_id, name, args, kwargs } ==> parent_tree(m)
            == JsonTree::Object(
            seq![
                ("type"@, JsonTree::Str("tool_call"@)),
                ("call_id"@, JsonTree::Int(call_id as int)),
                ("name"@, JsonTree::Str(name)),
                ("args"@, JsonTree::Array(args)),
                ("kwargs"@, kwargs_tree(kwargs)),
            ],
        ),
{
    if m is ToolResult {
        let result = m->result;
        let fields = seq![
            ("type"@, JsonTree::Str("tool_result"@)),
            ("call_id"@, JsonTree::Int(m->ToolResult_call_id as int)),
            (
                "output"@,
                match result.output {
                    Some(o) => JsonTree::Str(o),
                    None => JsonTree::Null,
                },
            ),
            (
                "error"@,
                match result.error {
                    Some(e) => JsonTree::Str(e),
                    None => JsonTree::Null,
                },
            ),
        ];
        assert(parent_fields(m) =~= fields);
    }
}

/// Named values are an array with an array of two for each, the name and its value, in order.
pub proof fn law_named_values_on_the_wire(kwargs: Seq<(Seq<char>, JsonTree)>)
    ensures
        kwargs_tree(kwargs) matches JsonTree::Array(items) && items.len() == kwargs.len() && forall|
            i: int,
        |
            0 <= i < items.len() ==> #[trigger] items[i] == JsonTree::Array(
                seq![JsonTree::Str(kwargs[i].0), kwargs[i].1],
            ),
{
}

// ── What is read from any message ──

/// Which values fit into a field.
pub proof fn law_values_that_fit(kind: Kind, t: JsonTree)
    ensures
        complaint(kind, t) is None <==> match kind {
            Kind::Text => t is Str,
            Kind::Flag => t is Bool,
            Kind::U32 => t matches JsonTree::Int(i) && 0 <= i <= u32::MAX,
            Kind::U64 => t matches JsonTree::Int(i) && 0 <= i <= u64::MAX,
            Kind::Usize => t matches JsonTree::Int(i) && 0 <= i <= usize::MAX,
            Kind::List => t is Array,
            Kind::Pairs => t matches JsonTree::Array(items) && forall|i: int|
                0 <= i < items.len() ==> (#[trigger] items[i] matches JsonTree::Array(two)
                    && two.len() == 2 && two[0] is Str),
            Kind::MaybeText => t is Str || t is Null,
            Kind::Anything => true,
        },
{
    if kind == Kind::Pairs && t is Array {
        lemma_pairs_that_fit(t->Array_0, 0);
    }
}

proof fn lemma_pairs_that_fit(items: Seq<JsonTree>, from: int)
    requires
        0 <= from,
    ensures
        pairs_complaint(items, from) is None <==> forall|i: int|
            from <= i < items.len() ==> (#[trigger] items[i] matches JsonTree::Array(two)
                && two.len() == 2 && two[0] is Str),
    decreases items.len() - from,
{
    if from < items.len() {
        lemma_pairs_that_fit(items, from + 1);
    }
}

/// A value that fits is read as what it is.
pub proof fn law_values_are_read(
    s: Seq<char>,
    b: bool,
    i: int,
    items: Seq<JsonTree>,
    v: JsonTree,
    kwargs: Seq<(Seq<char>, JsonTree)>,
)
    ensures
        text_in(JsonTree::Str(s)) == s,
        flag_in(JsonTree::Bool(b)) == b,
        0 <= i <= u32::MAX ==> int_in(Kind::U32, JsonTree::Int(i)) == i,
        0 <= i <= u64::MAX ==> int_in(Kind::U64, JsonTree::Int(i)) == i,
        0 <= i <= usize::MAX ==> int_in(Kind::Usize, JsonTree::Int(i)) == i,
        list_in(JsonTree::Array(items)) == items,
        maybe_text_in(JsonTree::Str(s)) == Some(s),
        maybe_text_in(JsonTree::Null) is None,
        maybe_value_in(JsonTree::Null) is None,
        v != JsonTree::Null ==> maybe_value_in(v) == Some(v),
        pairs_in(kwargs_tree(kwargs)) == kwargs,
{
    assert(pairs_in(kwargs_tree(kwargs)) =~= kwargs);
}

/// Whether no field of a schema has the name of another.
pub open spec fn distinct_names(schema: Schema) -> bool {
    forall|i: int, j: int|
        0 <= i < j < schema.len() ==> (#[trigger] schema[i]).0 != (#[trigger] schema[j]).0
}

/// The fields of an object are read by their names, wherever they stand and whatever other
/// fields there are. They are read exactly where each fits that is there, and none is left
/// out that must be there; one that may be left out is then `null`.
pub proof fn law_fields_are_read_by_name(
    schema: Schema,
    what: Seq<char>,
    fields: Seq<(Seq<char>, JsonTree)>,
)
    requires
        json::distinct_keys(fields),
        distinct_names(schema),
    ensures
        read_fields(schema, what, JsonTree::Object(fields)) is Ok <==> forall|i: int|
            0 <= i < schema.len() ==> match json::field_of(fields, (#[trigger] schema[i]).0) {
                Some(v) => complaint(schema[i].1, v) is None,
                None => schema[i].1 == Kind::MaybeText || schema[i].1 == Kind::Anything,
            },
        read_fields(schema, what, JsonTree::Object(fields)) matches Ok(values) ==> values.len()
            == schema.len() && forall|i: int|
            0 <= i < schema.len() ==> #[trigger] values[i] == (match json::field_of(
                fields,
                schema[i].0,
            ) {
                Some(v) => v,
                None => JsonTree::Null,
            }),
        read_whole(schema, what, JsonTree::Object(fields)) == read_fields(
            schema,
            what,
            JsonTree::Object(fields),
        ),
        read_alone(schema, what, JsonTree::Object(fields)) == read_fields(
            schema,
            what,
            JsonTree::Object(fields),
        ),
{
    lemma_complaints(schema, fields, 0);
    lemma_missing(schema, fields, 0);
    let fit = forall|i: int|
        0 <= i < schema.len() ==> match json::field_of(fields, (#[trigger] schema[i]).0) {
            Some(v) => complaint(schema[i].1, v) is None,
            None => schema[i].1 == Kind::MaybeText || schema[i].1 == Kind::Anything,
        };
    if fit {
        assert forall|j: int| 0 <= j < fields.len() implies field_complaint(
            schema,
            #[trigger] fields[j],
        ) is None by {
            lemma_kind_of(schema, fields[j].0, 0);
            lemma_field_at(fields, j);
            if kind_of(schema, fields[j].0, 0) is Some {
                let k = kind_of(schema, fields[j].0, 0)->Some_0;
                let i = choose|i: int|
                    0 <= i < schema.len() && #[trigger] schema[i] == (fields[j].0, k);
                assert(complaint(schema[i].1, fields[j].1) is None);
            }
        }
    }
    if fields_complaint(schema, fields, 0) is None && first_missing(schema, fields, 0) is None {
        assert forall|i: int| 0 <= i < schema.len() implies match json::field_of(
            fields,
            (#[trigger] schema[i]).0,
        ) {
            Some(v) => complaint(schema[i].1, v) is None,
            None => schema[i].1 == Kind::MaybeText || schema[i].1 == Kind::Anything,
        } by {
            let name = schema[i].0;
            if json::field_of(fields, name) is Some {
                json::law_first_field_counts(fields, name);
                let j = choose|j: int| 0 <= j < fields.len() && (#[trigger] fields[j]).0 == name;
                lemma_field_at(fields, j);
                lemma_kind_at(schema, i, 0);
                assert(field_complaint(schema, fields[j]) is None);
            }
        }
    }
}

proof fn lemma_complaints(schema: Schema, fields: Seq<(Seq<char>, JsonTree)>, from: int)
    requires
        0 <= from,
    ensures
        fields_complaint(schema, fields, from) is None <==> forall|j: int|
            from <= j < fields.len() ==> field_complaint(schema, #[trigger] fields[j]) is None,
    decreases fields.len() - from,
{
    if from < fields.len() {
        lemma_complaints(schema, fields, from + 1);
    }
}

proof fn lemma_missing(schema: Schema, fields: Seq<(Seq<char>, JsonTree)>, from: int)
    requires
        0 <= from,
    ensures
        first_missing(schema, fields, from) is None <==> forall|i: int|
            from <= i < schema.len() ==> (optional((#[trigger] schema[i]).1) || json::field_of(
                fields,
                schema[i].0,
            ) is Some),
    decreases schema.len() - from,
{
    if from < schema.len() {
        lemma_missing(schema, fields, from + 1);
    }
}

proof fn lemma_kind_at(schema: Schema, i: int, from: int)
    requires
        distinct_names(schema),
        0 <= from <= i < schema.len(),
    ensures
        kind_of(schema, schema[i].0, from) == Some(schema[i].1),
    decreases i - from,
{
    if from < i {
        assert(schema[from].0 != schema[i].0);
        lemma_kind_at(schema, i, from + 1);
    }
}

/// An array holds the fields one after the other: it is read exactly where every one of them
/// is there and fits, and, where the array is all there is, nothing follows.
pub proof fn law_arrays_are_read_in_order(schema: Schema, what: Seq<char>, items: Seq<JsonTree>)
    ensures
        read_fields(schema, what, JsonTree::Array(items)) is Ok <==> (schema.len() <= items.len()
            && forall|i: int|
            0 <= i < schema.len() ==> complaint((#[trigger] schema[i]).1, items[i]) is None),
        read_fields(schema, what, JsonTree::Array(items)) matches Ok(values) ==> values
            == items.take(schema.len() as int),
        read_whole(schema, what, JsonTree::Array(items)) is Ok <==> read_fields(
            schema,
            what,
            JsonTree::Array(items),
        ) is Ok && items.len() == schema.len(),
        read_alone(schema, what, JsonTree::Array(items)) is Ok <==> read_fields(
            schema,
            what,
            JsonTree::Array(items),
        ) is Ok && items.len() == schema.len(),
{
    lemma_items(schema, what, items, 0);
}

proof fn lemma_items(schema: Schema, what: Seq<char>, items: Seq<JsonTree>, from: int)
    requires
        0 <= from,
    ensures
        items_complaint(schema, what, items, from) is None <==> (from >= schema.len()
            || schema.len() <= items.len()) && forall|i: int|
            from <= i < schema.len() ==> complaint((#[trigger] schema[i]).1, items[i]) is None,
    decreases schema.len() - from,
{
    if from < schema.len() {
        lemma_items(schema, what, items, from + 1);
    }
}

/// What is neither an object nor an array holds no message.
pub proof fn law_other_values_are_no_message(t: JsonTree)
    requires
        !(t is Object),
        !(t is Array),
    ensures
        read_child(t) is Err,
        read_parent(t) is Err,
        read_handshake(t) is Err,
        read_setup(t) is Err,
{
}

/// The fields of each message have different names.
proof fn lemma_schema_names()
    ensures
        distinct_names(entry_schema()),
        distinct_names(payload_schema()),
        distinct_names(handshake_schema()),
        distinct_names(setup_schema()),
        distinct_names(tool_call_schema()),
        distinct_names(call_schema()),
        distinct_names(done_schema()),
        distinct_names(exec_schema()),
        distinct_names(run_schema()),
{
    reveal_strlit("name");
    reveal_strlit("is_dir");
    reveal_strlit("output");
    reveal_strlit("error");
    reveal_strlit("version");
    reveal_strlit("code");
    reveal_strlit("timeout_secs");
    reveal_strlit("max_memory");
    reveal_strlit("call_id");
    reveal_strlit("args");
    reveal_strlit("kwargs");
    reveal_strlit("stdout");
    reveal_strlit("is_error");
    reveal_strlit("config");
    assert("name"@.len() == 4);
    assert("is_dir"@.len() == 6);
    assert("output"@.len() == 6);
    assert("error"@.len() == 5);
    assert("version"@.len() == 7);
    assert("code"@.len() == 4);
    assert("timeout_secs"@.len() == 12);
    assert("max_memory"@.len() == 10);
    assert("call_id"@.len() == 7);
    assert("args"@.len() == 4);
    assert("kwargs"@.len() == 6);
    assert("stdout"@.len() == 6);
    assert("is_error"@.len() == 8);
    assert("config"@.len() == 6);
    assert("name"@[0] != "args"@[0]);
    assert("output"@[0] != "stdout"@[0]);
}

/// A handshake or a setup message that was read from an object holds the values of its
/// fields.
pub proof fn law_first_messages_hold_their_fields(
    fields: Seq<(Seq<char>, JsonTree)>,
    h: HandshakeView,
    m: SetupView,
)
    requires
        json::distinct_keys(fields),
    ensures
        gives(read_handshake(JsonTree::Object(fields)), h) <==> json::field_of(fields, "name"@)
            == Some(JsonTree::Str(h.name)) && json::field_of(fields, "version"@) == Some(
            JsonTree::Int(h.version as int),
        ),
        gives(read_setup(JsonTree::Object(fields)), m) <==> json::field_of(fields, "code"@) == Some(
            JsonTree::Str(m.code),
        ) && json::field_of(fields, "timeout_secs"@) == Some(
            JsonTree::Int(m.timeout_secs as int),
        ) && json::field_of(fields, "max_memory"@) == Some(JsonTree::Int(m.max_memory as int)),
{
    lemma_schema_names();
    let a = handshake_schema();
    let b = setup_schema();
    law_fields_are_read_by_name(a, "struct Handshake"@, fields);
    law_fields_are_read_by_name(b, "struct SetupMessage"@, fields);
    assert(a[0] == ("name"@, Kind::Text) && a[1] == ("version"@, Kind::U32));
    assert(b[0] == ("code"@, Kind::Text) && b[1] == ("timeout_secs"@, Kind::U64) && b[2] == (
        "max_memory"@,
        Kind::Usize,
    ));
}

/// A tool result for one call that was read from an object holds the number, the output and
/// the error that stand there; a `null`, or nothing, is read as none.
pub proof fn law_tool_results_hold_their_fields(
    what: Seq<char>,
    fields: Seq<(Seq<char>, JsonTree)>,
    call_id: u32,
    p: PayloadView,
)
    requires
        json::distinct_keys(fields),
    ensures
        gives(read_tool_result(what, JsonTree::Object(fields)), (call_id, p)) <==> {
            &&& json::field_of(fields, "call_id"@) == Some(JsonTree::Int(call_id as int))
            &&& match json::field_of(fields, "output"@) {
                Some(JsonTree::Str(x)) => p.output == Some(x),
                Some(JsonTree::Null) => p.output is None,
                None => p.output is None,
                _ => false,
            }
            &&& match json::field_of(fields, "error"@) {
                Some(JsonTree::Str(x)) => p.error == Some(x),
                Some(JsonTree::Null) => p.error is None,
                None => p.error is None,
                _ => false,
            }
        },
{
    lemma_schema_names();
    let a = call_schema();
    let b = payload_schema();
    law_fields_are_read_by_name(a, what, fields);
    law_fields_are_read_by_name(b, what, fields);
    assert(a[0] == ("call_id"@, Kind::U32));
    assert(b[0] == ("output"@, Kind::MaybeText) && b[1] == ("error"@, Kind::MaybeText));
    assert(first_missing(b, fields, 0) is None) by {
        lemma_missing(b, fields, 0);
    }
}

/// A request to run a tool that was read from an object holds the values of its fields.
pub proof fn law_tool_calls_hold_their_fields(
    what: Seq<char>,
    fields: Seq<(Seq<char>, JsonTree)>,
    c: ToolCallView,
)
    requires
        json::distinct_keys(fields),
        gives(read_tool_call(what, JsonTree::Object(fields)), c),
    ensures
        json::field_of(fields, "call_id"@) == Some(JsonTree::Int(c.call_id as int)),
        json::field_of(fields, "name"@) == Some(JsonTree::Str(c.name)),
        json::field_of(fields, "args"@) == Some(JsonTree::Array(c.args)),
        json::field_of(fields, "kwargs"@) matches Some(JsonTree::Array(items)) && items.len()
            == c.kwargs.len() && forall|i: int|
            0 <= i < items.len() ==> (#[trigger] items[i] matches JsonTree::Array(two) && two.len()
                == 2 && two[0] == JsonTree::Str(c.kwargs[i].0) && two[1] == c.kwargs[i].1),
{
    lemma_schema_names();
    let a = tool_call_schema();
    law_fields_are_read_by_name(a, what, fields);
    assert(a[0] == ("call_id"@, Kind::U32) && a[1] == ("name"@, Kind::Text) && a[2] == (
        "args"@,
        Kind::List,
    ) && a[3] == ("kwargs"@, Kind::Pairs));
    let v = read_fields(a, what, JsonTree::Object(fields))->Ok_0;
    law_values_that_fit(Kind::Pairs, v[3]);
    let items = list_in(v[3]);
    assert forall|i: int| 0 <= i < items.len() implies (#[trigger] items[i] matches
        JsonTree::Array(two) && two.len() == 2 && two[0] == JsonTree::Str(c.kwargs[i].0) && two[1]
        == c.kwargs[i].1) by {
        assert(c.kwargs[i] == pair_in(items[i]));
    }
}

/// The kind of a message from the child is the text under `type`, and a message that was read
/// from an object holds the values of its fields.
pub proof fn law_child_messages_hold_their_fields(
    fields: Seq<(Seq<char>, JsonTree)>,
    m: ChildMsgView,
)
    requires
        json::distinct_keys(fields),
        gives(read_child(JsonTree::Object(fields)), m),
    ensures
        m matches ChildMsgView::Stdout { text } ==> json::field_of(fields, "type"@) == Some(
            JsonTree::Str("stdout"@),
        ) && json::field_of(fields, "text"@) == Some(JsonTree::Str(text)),
        m is ToolCall ==> json::field_of(fields, "type"@) == Some(JsonTree::Str("tool_call"@)),
        m matches ChildMsgView::Done { output, stdout, error } ==> {
            &&& json::field_of(fields, "type"@) == Some(JsonTree::Str("done"@))
            &&& json::field_of(fields, "stdout"@) == Some(JsonTree::Str(stdout))
            &&& output matches Some(v) ==> json::field_of(fields, "output"@) == Some(v) && v
                != JsonTree::Null
            &&& output is None ==> json::field_of(fields, "output"@) is None || json::field_of(
                fields,
                "output"@,
            ) == Some(JsonTree::Null)
            &&& match json::field_of(fields, "error"@) {
                Some(JsonTree::Str(x)) => error == Some(x),
                Some(JsonTree::Null) => error is None,
                None => error is None,
                _ => false,
            }
        },
        m is LsResult ==> json::field_of(fields, "type"@) == Some(JsonTree::Str("ls_result"@)),
        m matches ChildMsgView::PwdResult { path } ==> json::field_of(fields, "type"@) == Some(
            JsonTree::Str("pwd_result"@),
        ) && json::field_of(fields, "path"@) == Some(JsonTree::Str(path)),
        m is CdResult ==> json::field_of(fields, "type"@) == Some(JsonTree::Str("cd_result"@)),
        m matches ChildMsgView::ExecResult { output, is_error } ==> {
            &&& json::field_of(fields, "type"@) == Some(JsonTree::Str("exec_result"@))
            &&& json::field_of(fields, "output"@) == Some(JsonTree::Str(output))
            &&& json::field_of(fields, "is_error"@) == Some(JsonTree::Bool(is_error))
        },
        m matches ChildMsgView::ToolResult { call_id, result } ==> {
            &&& json::field_of(fields, "type"@) == Some(JsonTree::Str("tool_result"@))
            &&& json::field_of(fields, "call_id"@) == Some(JsonTree::Int(call_id as int))
            &&& match json::field_of(fields, "output"@) {
                Some(JsonTree::Str(x)) => result.output == Some(x),
                Some(JsonTree::Null) => result.output is None,
                None => result.output is None,
                _ => false,
            }
            &&& match json::field_of(fields, "error"@) {
                Some(JsonTree::Str(x)) => result.error == Some(x),
                Some(JsonTree::Null) => result.error is None,
                None => result.error is None,
                _ => false,
            }
        },
{
    lemma_schema_names();
    lemma_child_kinds();
    let t = JsonTree::Object(fields);
    match m {
        ChildMsgView::Stdout { text } => {
            lemma_text_field("text"@, "struct variant ChildMsg::Stdout"@, fields);
        },
        ChildMsgView::PwdResult { path } => {
            lemma_text_field("path"@, "struct variant ChildMsg::PwdResult"@, fields);
        },
        ChildMsgView::Done { output, stdout, error } => {
            let a = done_schema();
            law_fields_are_read_by_name(a, "struct variant ChildMsg::Done"@, fields);
            assert(a[0] == ("output"@, Kind::Anything) && a[1] == ("stdout"@, Kind::Text) && a[2]
                == ("error"@, Kind::MaybeText));
        },
        ChildMsgView::ExecResult { output, is_error } => {
            let a = exec_schema();
            law_fields_are_read_by_name(a, "struct variant ChildMsg::ExecResult"@, fields);
            assert(a[0] == ("output"@, Kind::Text) && a[1] == ("is_error"@, Kind::Flag));
        },
        ChildMsgView::ToolResult { call_id, result } => {
            law_tool_results_hold_their_fields(
                "struct variant ChildMsg::ToolResult"@,
                fields,
                call_id,
                result,
            );
        },
        _ => {},
    }
}

proof fn lemma_text_field(name: Seq<char>, what: Seq<char>, fields: Seq<(Seq<char>, JsonTree)>)
    requires
        json::distinct_keys(fields),
    ensures
        read_text(name, what, JsonTree::Object(fields)) matches Ok(text) ==> json::field_of(
            fields,
            name,
        ) == Some(JsonTree::Str(text)),
{
    let a: Schema = seq![(name, Kind::Text)];
    law_fields_are_read_by_name(a, what, fields);
    assert(a[0] == (name, Kind::Text));
}

/// The kind of a message from the parent is the text under `type`, and a message that was
/// read from an object holds the values of its fields.
pub proof fn law_parent_messages_hold_their_fields(
    fields: Seq<(Seq<char>, JsonTree)>,
    m: ParentMsgView,
)
    requires
        json::distinct_keys(fields),
        gives(read_parent(JsonTree::Object(fields)), m),
    ensures
        json::field_of(fields, "type"@) == Some(
            JsonTree::Str(
                match m {
                    ParentMsgView::ToolResult { .. } => "tool_result"@,
                    ParentMsgView::ToolBatchResult { .. } => "tool_batch_result"@,
                    ParentMsgView::Cancel => "cancel"@,
                    ParentMsgView::Exit => "exit"@,
                    ParentMsgView::Ls { .. } => "ls"@,
                    ParentMsgView::Pwd => "pwd"@,
                    ParentMsgView::Cd { .. } => "cd"@,
                    ParentMsgView::Exec { .. } => "exec"@,
                    ParentMsgView::Run { .. } => "run"@,
                    ParentMsgView::ToolCall { .. } => "tool_call"@,
                },
            ),
        ),
        m matches ParentMsgView::Ls { path } ==> json::field_of(fields, "path"@) == Some(
            JsonTree::Str(path),
        ),
        m matches ParentMsgView::Cd { path } ==> json::field_of(fields, "path"@) == Some(
            JsonTree::Str(path),
        ),
        m matches ParentMsgView::Exec { command } ==> json::field_of(fields, "command"@) == Some(
            JsonTree::Str(command),
        ),
        m matches ParentMsgView::Run { call_id, code, timeout_secs, max_memory, config } ==> {
            &&& json::field_of(fields, "call_id"@) == Some(JsonTree::Int(call_id as int))
            &&& json::field_of(fields, "code"@) == Some(JsonTree::Str(code))
            &&& json::field_of(fields, "timeout_secs"@) == Some(
                JsonTree::Int(timeout_secs as int),
            )
            &&& json::field_of(fields, "max_memory"@) == Some(JsonTree::Int(max_memory as int))
            &&& json::field_of(fields, "config"@) == Some(JsonTree::Str(config))
        },
        m matches ParentMsgView::ToolResult { call_id, result } ==> {
            &&& json::field_of(fields, "call_id"@) == Some(JsonTree::Int(call_id as int))
            &&& match json::field_of(fields, "output"@) {
                Some(JsonTree::Str(x)) => result.output == Some(x),
                Some(JsonTree::Null) => result.output is None,
                None => result.output is None,
                _ => false,
            }
            &&& match json::field_of(fields, "error"@) {
                Some(JsonTree::Str(x)) => result.error == Some(x),
                Some(JsonTree::Null) => result.error is None,
                None => result.error is None,
                _ => false,
            }
        },
{
    lemma_schema_names();
    lemma_parent_kinds();
    match m {
        ParentMsgView::Ls { path } => {
            lemma_text_field("path"@, "struct variant ParentMsg::Ls"@, fields);
        },
        ParentMsgView::Cd { path } => {
            lemma_text_field("path"@, "struct variant ParentMsg::Cd"@, fields);
        },
        ParentMsgView::Exec { command } => {
            lemma_text_field("command"@, "struct variant ParentMsg::Exec"@, fields);
        },
        ParentMsgView::Run { call_id, code, timeout_secs, max_memory, config } => {
            let a = run_schema();
            law_fields_are_read_by_name(a, "struct variant ParentMsg::Run"@, fields);
            assert(a[0] == ("call_id"@, Kind::U32) && a[1] == ("code"@, Kind::Text) && a[2] == (
                "timeout_secs"@,
                Kind::U64,
            ) && a[3] == ("max_memory"@, Kind::Usize) && a[4] == ("config"@, Kind::Text));
        },
        ParentMsgView::ToolResult { call_id, result } => {
            law_tool_results_hold_their_fields(
                "struct variant ParentMsg::ToolResult"@,
                fields,
                call_id,
                result,
            );
        },
        _ => {},
    }
}

/// Every entry of a list is read, in order, and one that cannot be read fails the whole.
pub proof fn law_every_entry_is_read(items: Seq<JsonTree>, n: int)
    requires
        0 <= n <= items.len(),
    ensures
        read_entries(items, n) is Ok <==> forall|i: int|
            0 <= i < n ==> read_entry(#[trigger] items[i]) is Ok,
        read_entries(items, n) matches Ok(entries) ==> entries.len() == n && forall|i: int|
            0 <= i < n ==> gives(read_entry(#[trigger] items[i]), entries[i]),
        read_results(items, n) is Ok <==> forall|i: int|
            0 <= i < n ==> read_result(#[trigger] items[i]) is Ok,
        read_results(items, n) matches Ok(results) ==> results.len() == n && forall|i: int|
            0 <= i < n ==> gives(read_result(#[trigger] items[i]), results[i]),
    decreases n,
{
    if n > 0 {
        law_every_entry_is_read(items, n - 1);
    }
}

/// A kind that no message has is refused.
pub proof fn law_unknown_kinds_are_refused(t: JsonTree, kind: Seq<char>)
    ensures
        gives(read_tag("internally tagged enum ChildMsg"@, t), kind) && kind != "stdout"@ && kind
            != "tool_call"@ && kind != "done"@ && kind != "ls_result"@ && kind != "pwd_result"@
            && kind != "cd_result"@ && kind != "exec_result"@ && kind != "tool_result"@
            ==> read_child(t) is Err,
        gives(read_tag("internally tagged enum ParentMsg"@, t), kind) && kind != "tool_result"@
            && kind != "tool_batch_result"@ && kind != "cancel"@ && kind != "exit"@ && kind
            != "ls"@ && kind != "pwd"@ && kind != "cd"@ && kind != "exec"@ && kind != "run"@
            && kind != "tool_call"@ ==> read_parent(t) is Err,
{
}

/// Every message that carries no value of a tool or a run can be read back, and every other
/// where the values do not nest too deep and hold no fractional number.
pub proof fn law_messages_that_are_read_back(m: ChildMsgView, q: ParentMsgView)
    ensures
        !(m is ToolCall) && !(m is Done) ==> plain_child(m) && !holds_null_output(m),
        m matches ChildMsgView::Done { output: None, .. } ==> plain_child(m) && !holds_null_output(
            m,
        ),
        m matches ChildMsgView::Done { output: Some(t), .. } ==> (plain_child(m) <==> t.plain_within(
            126,
        )) && (holds_null_output(m) <==> t == JsonTree::Null),
        m matches ChildMsgView::ToolCall { args, kwargs, .. } ==> (plain_child(m) <==> (forall|
            i: int,
        |
            0 <= i < args.len() ==> (#[trigger] args[i]).plain_within(125)) && forall|i: int|
            0 <= i < kwargs.len() ==> (#[trigger] kwargs[i]).1.plain_within(124)),
        !(q is ToolCall) ==> plain_parent(q),
        q matches ParentMsgView::ToolCall { args, kwargs, .. } ==> (plain_parent(q) <==> (forall|
            i: int,
        |
            0 <= i < args.len() ==> (#[trigger] args[i]).plain_within(125)) && forall|i: int|
            0 <= i < kwargs.len() ==> (#[trigger] kwargs[i]).1.plain_within(124)),
{
}

/// How a value that does not fit is described: by what it is and what was expected.
pub proof fn law_refusals_are_worded(
    t: JsonTree,
    i: int,
    s: Seq<char>,
    items: Seq<JsonTree>,
    fields: Seq<(Seq<char>, JsonTree)>,
    expected: Seq<char>,
)
    ensures
        bad_type(t, expected) == "invalid type: "@ + described(t) + ", expected "@ + expected,
        bad_value(t, expected) == "invalid value: "@ + described(t) + ", expected "@ + expected,
        bad_length(i, expected) == "invalid length "@ + text::decimal_int(i) + ", expected "@
            + expected,
        missing_field(s) == "missing field `"@ + s + "`"@,
        described(JsonTree::Null) == "null"@,
        described(JsonTree::Bool(true)) == "boolean `true`"@,
        described(JsonTree::Bool(false)) == "boolean `false`"@,
        described(JsonTree::Int(i)) == "integer `"@ + text::decimal_int(i) + "`"@,
        described(JsonTree::Str(s)) == "string "@ + text::debug_text(s),
        described(JsonTree::Array(items)) == "sequence"@,
        described(JsonTree::Object(fields)) == "map"@,
        elements(1) == "1 element"@,
        i != 1 ==> elements(i) == text::decimal_int(i) + " elements"@,
        unknown_kind(s, expected) == "unknown variant `"@ + s + "`, expected one of "@ + expected,
        expected_in(Kind::Text) == "a string"@ && expected_in(Kind::MaybeText) == "a string"@,
        expected_in(Kind::Flag) == "a boolean"@ && expected_in(Kind::U32) == "u32"@,
        expected_in(Kind::U64) == "u64"@ && expected_in(Kind::Usize) == "usize"@,
        expected_in(Kind::List) == "a sequence"@ && expected_in(Kind::Pairs) == "a sequence"@,
        child_kinds()
            == "`stdout`, `tool_call`, `done`, `ls_result`, `pwd_result`, `cd_result`, `exec_result`, `tool_result`"@,
        parent_kinds()
            == "`tool_result`, `tool_batch_result`, `cancel`, `exit`, `ls`, `pwd`, `cd`, `exec`, `run`, `tool_call`"@,
{
}

/// A value that does not fit is refused for what is wrong with it, the first one of a message
/// where there are several.
pub proof fn law_first_fault_counts(
    schema: Schema,
    what: Seq<char>,
    fields: Seq<(Seq<char>, JsonTree)>,
    i: int,
)
    requires
        0 <= i < fields.len(),
        field_complaint(schema, fields[i]) is Some,
        forall|j: int| 0 <= j < i ==> field_complaint(schema, #[trigger] fields[j]) is None,
    ensures
        read_fields(schema, what, JsonTree::Object(fields)) matches Err(e)
            && field_complaint(schema, fields[i]) == Some(e),
{
    lemma_first_fault(schema, fields, 0, i);
}

proof fn lemma_first_fault(
    schema: Schema,
    fields: Seq<(Seq<char>, JsonTree)>,
    from: int,
    i: int,
)
    requires
        0 <= from <= i < fields.len(),
        field_complaint(schema, fields[i]) is Some,
        forall|j: int| 0 <= j < i ==> field_complaint(schema, #[trigger] fields[j]) is None,
    ensures
        fields_complaint(schema, fields, from) == field_complaint(schema, fields[i]),
    decreases i - from,
{
    if from < i {
        lemma_first_fault(schema, fields, from + 1, i);
    }
}

/// A message may come as an array too: its kind, and then what it carries, in order. What
/// follows the last of these is refused, and so is a tool result for one call, whose fields
/// have no order.
pub proof fn law_child_messages_in_arrays(
    text: Seq<char>,
    flag: bool,
    more: JsonTree,
    kwargs: Seq<(Seq<char>, JsonTree)>,
    args: Seq<JsonTree>,
    call_id: u32,
    rest: Seq<JsonTree>,
)
    ensures
        gives(
            read_child(JsonTree::Array(seq![JsonTree::Str("stdout"@), JsonTree::Str(text)])),
            ChildMsgView::Stdout { text },
        ),
        gives(
            read_child(JsonTree::Array(seq![JsonTree::Str("pwd_result"@), JsonTree::Str(text)])),
            ChildMsgView::PwdResult { path: text },
        ),
        gives(
            read_child(JsonTree::Array(seq![JsonTree::Str("cd_result"@)])),
            ChildMsgView::CdResult,
        ),
        gives(
            read_child(
                JsonTree::Array(
                    seq![JsonTree::Str("exec_result"@), JsonTree::Str(text), JsonTree::Bool(flag)],
                ),
            ),
            ChildMsgView::ExecResult { output: text, is_error: flag },
        ),
        gives(
            read_child(
                JsonTree::Array(
                    seq![
                        JsonTree::Str("tool_call"@),
                        JsonTree::Int(call_id as int),
                        JsonTree::Str(text),
                        JsonTree::Array(args),
                        kwargs_tree(kwargs),
                    ],
                ),
            ),
            ChildMsgView::ToolCall { call_id, name: text, args, kwargs },
        ),
        read_child(JsonTree::Array(seq![JsonTree::Str("stdout"@), JsonTree::Str(text), more]))
            is Err,
        read_child(JsonTree::Array(seq![JsonTree::Str("cd_result"@), more])) is Err,
        read_child(JsonTree::Array(seq![JsonTree::Str("tool_result"@)] + rest)) is Err,
        read_child(JsonTree::Array(Seq::empty())) is Err,
{
    lemma_child_kinds();
    let one: Schema = seq![("text"@, Kind::Text)];
    let path: Schema = seq![("path"@, Kind::Text)];
    let a = seq![JsonTree::Str("stdout"@), JsonTree::Str(text)];
    assert(a.skip(1) =~= seq![JsonTree::Str(text)]);
    law_arrays_are_read_in_order(one, "struct variant ChildMsg::Stdout"@, a.skip(1));
    let b = seq![JsonTree::Str("pwd_result"@), JsonTree::Str(text)];
    assert(b.skip(1) =~= seq![JsonTree::Str(text)]);
    law_arrays_are_read_in_order(path, "struct variant ChildMsg::PwdResult"@, b.skip(1));
    let c = seq![JsonTree::Str("exec_result"@), JsonTree::Str(text), JsonTree::Bool(flag)];
    assert(c.skip(1) =~= seq![JsonTree::Str(text), JsonTree::Bool(flag)]);
    law_arrays_are_read_in_order(
        exec_schema(),
        "struct variant ChildMsg::ExecResult"@,
        c.skip(1),
    );
    let d = seq![
        JsonTree::Str("tool_call"@),
        JsonTree::Int(call_id as int),
        JsonTree::Str(text),
        JsonTree::Array(args),
        kwargs_tree(kwargs),
    ];
    assert(d.skip(1) =~= seq![
        JsonTree::Int(call_id as int),
        JsonTree::Str(text),
        JsonTree::Array(args),
        kwargs_tree(kwargs),
    ]);
    lemma_pairs_fit(kwargs, 0);
    law_arrays_are_read_in_order(
        tool_call_schema(),
        "struct variant ChildMsg::ToolCall"@,
        d.skip(1),
    );
    assert(d.skip(1).take(4) =~= d.skip(1));
    assert(pairs_in(kwargs_tree(kwargs)) =~= kwargs);
    let e = seq![JsonTree::Str("stdout"@), JsonTree::Str(text), more];
    assert(e.skip(1) =~= seq![JsonTree::Str(text), more]);
    law_arrays_are_read_in_order(one, "struct variant ChildMsg::Stdout"@, e.skip(1));
    assert(seq![JsonTree::Str("cd_result"@), more].skip(1) =~= seq![more]);
    assert(seq![JsonTree::Str("cd_result"@)].skip(1) =~= Seq::<JsonTree>::empty());
    let f = seq![JsonTree::Str("tool_result"@)] + rest;
    assert(f[0] == JsonTree::Str("tool_result"@));
}

/// The same holds of a message from the parent.
pub proof fn law_parent_messages_in_arrays(
    text: Seq<char>,
    config: Seq<char>,
    call_id: u32,
    timeout_secs: u64,
    max_memory: usize,
    more: JsonTree,
    rest: Seq<JsonTree>,
)
    ensures
        gives(
            read_parent(JsonTree::Array(seq![JsonTree::Str("ls"@), JsonTree::Str(text)])),
            ParentMsgView::Ls { path: text },
        ),
        gives(
            read_parent(JsonTree::Array(seq![JsonTree::Str("cd"@), JsonTree::Str(text)])),
            ParentMsgView::Cd { path: text },
        ),
        gives(
            read_parent(JsonTree::Array(seq![JsonTree::Str("exec"@), JsonTree::Str(text)])),
            ParentMsgView::Exec { command: text },
        ),
        gives(read_parent(JsonTree::Array(seq![JsonTree::Str("pwd"@)])), ParentMsgView::Pwd),
        gives(read_parent(JsonTree::Array(seq![JsonTree::Str("exit"@)])), ParentMsgView::Exit),
        gives(read_parent(JsonTree::Array(seq![JsonTree::Str("cancel"@)])), ParentMsgView::Cancel),
        gives(
            read_parent(
                JsonTree::Array(
                    seq![
                        JsonTree::Str("run"@),
                        JsonTree::Int(call_id as int),
                        JsonTree::Str(text),
                        JsonTree::Int(timeout_secs as int),
                        JsonTree::Int(max_memory as int),
                        JsonTree::Str(config),
                    ],
                ),
            ),
            ParentMsgView::Run { call_id, code: text, timeout_secs, max_memory, config },
        ),
        read_parent(JsonTree::Array(seq![JsonTree::Str("exit"@), more])) is Err,
        read_parent(JsonTree::Array(seq![JsonTree::Str("tool_result"@)] + rest)) is Err,
        read_parent(JsonTree::Array(Seq::empty())) is Err,
{
    lemma_parent_kinds();
    let path: Schema = seq![("path"@, Kind::Text)];
    let command: Schema = seq![("command"@, Kind::Text)];
    let a = seq![JsonTree::Str("ls"@), JsonTree::Str(text)];
    assert(a.skip(1) =~= seq![JsonTree::Str(text)]);
    law_arrays_are_read_in_order(path, "struct variant ParentMsg::Ls"@, a.skip(1));
    let b = seq![JsonTree::Str("cd"@), JsonTree::Str(text)];
    assert(b.skip(1) =~= seq![JsonTree::Str(text)]);
    law_arrays_are_read_in_order(path, "struct variant ParentMsg::Cd"@, b.skip(1));
    let c = seq![JsonTree::Str("exec"@), JsonTree::Str(text)];
    assert(c.skip(1) =~= seq![JsonTree::Str(text)]);
    law_arrays_are_read_in_order(command, "struct variant ParentMsg::Exec"@, c.skip(1));
    assert(seq![JsonTree::Str("pwd"@)].skip(1) =~= Seq::<JsonTree>::empty());
    assert(seq![JsonTree::Str("exit"@)].skip(1) =~= Seq::<JsonTree>::empty());
    assert(seq![JsonTree::Str("cancel"@)].skip(1) =~= Seq::<JsonTree>::empty());
    assert(seq![JsonTree::Str("exit"@), more].skip(1) =~= seq![more]);
    let d = seq![
        JsonTree::Str("run"@),
        JsonTree::Int(call_id as int),
        JsonTree::Str(text),
        JsonTree::Int(timeout_secs as int),
        JsonTree::Int(max_memory as int),
        JsonTree::Str(config),
    ];
    assert(d.skip(1) =~= seq![
        JsonTree::Int(call_id as int),
        JsonTree::Str(text),
        JsonTree::Int(timeout_secs as int),
        JsonTree::Int(max_memory as int),
        JsonTree::Str(config),
    ]);
    law_arrays_are_read_in_order(run_schema(), "struct variant ParentMsg::Run"@, d.skip(1));
    assert(d.skip(1).take(5) =~= d.skip(1));
    let f = seq![JsonTree::Str("tool_result"@)] + rest;
    assert(f[0] == JsonTree::Str("tool_result"@));
}

/// A value that is no message is refused by the name of what was to be read, a message without
/// its kind for the missing field, and a kind that is no text for what it is.
pub proof fn law_faults_name_what_was_read(
    t: JsonTree,
    fields: Seq<(Seq<char>, JsonTree)>,
    v: JsonTree,
)
    requires
        !(t is Object),
        !(t is Array),
    ensures
        fails(read_child(t), bad_type(t, "internally tagged enum ChildMsg"@)),
        fails(read_parent(t), bad_type(t, "internally tagged enum ParentMsg"@)),
        fails(read_handshake(t), bad_type(t, "struct Handshake"@)),
        fails(read_setup(t), bad_type(t, "struct SetupMessage"@)),
        fails(read_entry(t), bad_type(t, "struct DirEntry"@)),
        fails(read_payload(t), bad_type(t, "struct ToolResultPayload"@)),
        json::field_of(fields, "type"@) is None ==> fails(
            read_child(JsonTree::Object(fields)),
            "missing field `"@ + "type"@ + "`"@,
        ) && fails(
            read_parent(JsonTree::Object(fields)),
            "missing field `"@ + "type"@ + "`"@,
        ),
        json::field_of(fields, "type"@) == Some(v) && !(v is Str) ==> fails(
            read_child(JsonTree::Object(fields)),
            bad_type(v, "variant identifier"@),
        ) && fails(
            read_parent(JsonTree::Object(fields)),
            bad_type(v, "variant identifier"@),
        ),
{
}

/// An array that ends too early is refused by the name of what was to be read, with how many
/// elements it has and how many there should be.
pub proof fn law_short_arrays_are_refused(schema: Schema, what: Seq<char>, items: Seq<JsonTree>)
    requires
        items.len() < schema.len(),
        forall|i: int| 0 <= i < items.len() ==> complaint((#[trigger] schema[i]).1, items[i]) is None,
    ensures
        fails(
            read_fields(schema, what, JsonTree::Array(items)),
            "invalid length "@ + text::decimal_int(items.len() as int) + ", expected "@ + (what
                + " with "@ + elements(schema.len() as int)),
        ),
{
    lemma_short_array(schema, what, items, 0);
}

proof fn lemma_short_array(schema: Schema, what: Seq<char>, items: Seq<JsonTree>, from: int)
    requires
        0 <= from <= items.len() < schema.len(),
        forall|i: int| 0 <= i < items.len() ==> complaint((#[trigger] schema[i]).1, items[i]) is None,
    ensures
        items_complaint(schema, what, items, from) == Some(
            bad_length(items.len() as int, what + " with "@ + elements(schema.len() as int)),
        ),
    decreases items.len() - from,
{
    if from < items.len() {
        assert(complaint(schema[from].1, items[from]) is None);
        lemma_short_array(schema, what, items, from + 1);
    }
}

} // verus!
