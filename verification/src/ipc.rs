//! Messages between the parent process and the sandboxed child.

use vstd::prelude::*;

use crate::codec;
use crate::error::{ipc_error, SandboxError};
use crate::json;
use crate::json::{Json, JsonTree};
use crate::text;
use crate::text::{debug_quoted, decimal_u64, utf8_text};
use crate::wire;
use crate::wire::{
    ChildMsgView, EntryView, HandshakeView, ParentMsgView, PayloadView, SetupView,
};

verus! {

/// The version of the handshake.
pub const HANDSHAKE_VERSION: u32 = 1;

/// The first message that each side sends.
#[derive(Debug)]
pub struct Handshake {
    pub name: String,
    pub version: u32,
}

/// The code to run and its limits. Empty code asks for browsing only.
#[derive(Debug)]
pub struct SetupMessage {
    pub code: String,
    pub timeout_secs: u64,
    pub max_memory: usize,
}

/// What a tool gave back.
#[derive(Debug)]
pub struct ToolResultPayload {
    pub output: Option<String>,
    pub error: Option<String>,
}

/// One entry of a directory listing.
#[derive(Debug)]
pub struct DirEntry {
    pub name: String,
    pub is_dir: bool,
}

/// A message from the child to the parent.
#[allow(inconsistent_fields)]
#[derive(Debug)]
pub enum ChildMsg {
    /// A line of output while code runs.
    Stdout { text: String },
    /// A request to run a tool in the parent.
    ToolCall { call_id: u32, name: String, args: Vec<Json>, kwargs: Vec<(String, Json)> },
    /// The final result of a run.
    Done { output: Option<Json>, stdout: String, error: Option<String> },
    LsResult { entries: Vec<DirEntry> },
    PwdResult { path: String },
    CdResult,
    ExecResult { output: String, is_error: bool },
    /// The result of a tool that the parent asked the child to run.
    ToolResult { call_id: u32, result: ToolResultPayload },
}

/// A message from the parent to the child.
#[derive(Debug)]
pub enum ParentMsg {
    /// The result of a tool that the child asked the parent to run.
    ToolResult { call_id: u32, result: ToolResultPayload },
    ToolBatchResult { results: Vec<(u32, ToolResultPayload)> },
    /// Cancels the pending tool calls.
    Cancel,
    /// Shuts the child down.
    Exit,
    Ls { path: String },
    Pwd,
    Cd { path: String },
    Exec { command: String },
    /// Code to run.
    Run { call_id: u32, code: String, timeout_secs: u64, max_memory: usize, config: String },
    /// A request to run a tool in the child.
    ToolCall { call_id: u32, name: String, args: Vec<Json>, kwargs: Vec<(String, Json)> },
}

impl View for Handshake {
    type V = HandshakeView;

    open spec fn view(&self) -> HandshakeView {
        HandshakeView { name: self.name@, version: self.version }
    }
}

impl View for SetupMessage {
    type V = SetupView;

    open spec fn view(&self) -> SetupView {
        SetupView {
            code: self.code@,
            timeout_secs: self.timeout_secs,
            max_memory: self.max_memory,
        }
    }
}

impl View for ToolResultPayload {
    type V = PayloadView;

    open spec fn view(&self) -> PayloadView {
        PayloadView { output: wire::opt_view(self.output), error: wire::opt_view(self.error) }
    }
}

impl View for DirEntry {
    type V = EntryView;

    open spec fn view(&self) -> EntryView {
        EntryView { name: self.name@, is_dir: self.is_dir }
    }
}

/// The models of directory entries.
pub open spec fn entry_views(entries: Seq<DirEntry>) -> Seq<EntryView> {
    Seq::new(entries.len(), |i: int| entries[i]@)
}

/// The models of a batch of tool results.
pub open spec fn result_views(results: Seq<(u32, ToolResultPayload)>) -> Seq<(u32, PayloadView)> {
    Seq::new(results.len(), |i: int| (results[i].0, results[i].1@))
}

impl View for ChildMsg {
    type V = ChildMsgView;

    open spec fn view(&self) -> ChildMsgView {
        match self {
            ChildMsg::Stdout { text } => ChildMsgView::Stdout { text: text@ },
            ChildMsg::ToolCall { call_id, name, args, kwargs } => ChildMsgView::ToolCall {
                call_id: *call_id,
                name: name@,
                args: json::trees(args@),
                kwargs: json::pair_trees(kwargs@),
            },
            ChildMsg::Done { output, stdout, error } => ChildMsgView::Done {
                output: wire::opt_tree(*output),
                stdout: stdout@,
                error: wire::opt_view(*error),
            },
            ChildMsg::LsResult { entries } => ChildMsgView::LsResult {
                entries: entry_views(entries@),
            },
            ChildMsg::PwdResult { path } => ChildMsgView::PwdResult { path: path@ },
            ChildMsg::CdResult => ChildMsgView::CdResult,
            ChildMsg::ExecResult { output, is_error } => ChildMsgView::ExecResult {
                output: output@,
                is_error: *is_error,
            },
            ChildMsg::ToolResult { call_id, result } => ChildMsgView::ToolResult {
                call_id: *call_id,
                result: result@,
            },
        }
    }
}

impl View for ParentMsg {
    type V = ParentMsgView;

    open spec fn view(&self) -> ParentMsgView {
        match self {
            ParentMsg::ToolResult { call_id, result } => ParentMsgView::ToolResult {
                call_id: *call_id,
                result: result@,
            },
            ParentMsg::ToolBatchResult { results } => ParentMsgView::ToolBatchResult {
                results: result_views(results@),
            },
            ParentMsg::Cancel => ParentMsgView::Cancel,
            ParentMsg::Exit => ParentMsgView::Exit,
            ParentMsg::Ls { path } => ParentMsgView::Ls { path: path@ },
            ParentMsg::Pwd => ParentMsgView::Pwd,
            ParentMsg::Cd { path } => ParentMsgView::Cd { path: path@ },
            ParentMsg::Exec { command } => ParentMsgView::Exec { command: command@ },
            ParentMsg::Run { call_id, code, timeout_secs, max_memory, config } => {
                ParentMsgView::Run {
                    call_id: *call_id,
                    code: code@,
                    timeout_secs: *timeout_secs,
                    max_memory: *max_memory,
                    config: config@,
                }
            },
            ParentMsg::ToolCall { call_id, name, args, kwargs } => ParentMsgView::ToolCall {
                call_id: *call_id,
                name: name@,
                args: json::trees(args@),
                kwargs: json::pair_trees(kwargs@),
            },
        }
    }
}

impl SetupMessage {
    /// The setup that runs no code and leaves the child answering queries.
    pub fn browse() -> (m: SetupMessage)
        ensures
            m.code@ == Seq::<char>::empty(),
            m.timeout_secs == 0,
            m.max_memory == 0,
    {
        SetupMessage { code: String::new(), timeout_secs: 0, max_memory: 0 }
    }
}

// ── Frames ──

/// The longest message that is written or read.
pub const MAX_MSG_LEN: usize = 16777216;

/// Four bytes, most significant first.
pub open spec fn be32(n: int) -> Seq<u8> {
    seq![
        (n / 16777216) as u8,
        (n / 65536 % 256) as u8,
        (n / 256 % 256) as u8,
        (n % 256) as u8,
    ]
}

/// The number in the first four bytes, most significant first.
pub open spec fn number_at_start(input: Seq<u8>) -> int {
    input[0] * 16777216 + input[1] * 65536 + input[2] * 256 + input[3]
}

/// A message on the wire: its length in four bytes, then its bytes.
pub open spec fn frame(data: Seq<u8>) -> Seq<u8> {
    be32(data.len() as int) + data
}

/// The reason for a message that is too long to be read.
pub open spec fn too_large(len: int) -> Seq<char> {
    "message too large: "@ + decimal_text(len) + " bytes (max "@ + decimal_text(
        MAX_MSG_LEN as int,
    ) + ")"@
}

/// The numeral of a length.
pub open spec fn decimal_text(n: int) -> Seq<char> {
    text::decimal(n as nat)
}

/// The message at the start of the input, or the reason why there is none.
pub open spec fn message_in(input: Seq<u8>) -> Result<Seq<u8>, Seq<char>> {
    if input.len() < 4 {
        Err("read header: failed to fill whole buffer"@)
    } else if number_at_start(input) > MAX_MSG_LEN {
        Err(too_large(number_at_start(input)))
    } else if input.len() < 4 + number_at_start(input) {
        Err("read payload: failed to fill whole buffer"@)
    } else {
        Ok(input.subrange(4, 4 + number_at_start(input)))
    }
}

/// What is left of the input once a message was read from its start. A header that
/// announces too much is taken away; input that is cut short stays.
pub open spec fn input_after(input: Seq<u8>) -> Seq<u8> {
    if input.len() >= 4 && number_at_start(input) > MAX_MSG_LEN {
        input.skip(4)
    } else if message_in(input) is Ok {
        input.skip(4 + number_at_start(input))
    } else {
        input
    }
}

/// How many more bytes must arrive before the first message can be read or refused.
pub open spec fn missing_bytes(input: Seq<u8>) -> int {
    if input.len() < 4 {
        4 - input.len()
    } else if number_at_start(input) > MAX_MSG_LEN || input.len() >= 4 + number_at_start(input) {
        0
    } else {
        4 + number_at_start(input) - input.len()
    }
}

/// Four bytes hold every length below two to the power of 32.
proof fn lemma_be32(n: int)
    requires
        0 <= n <= u32::MAX,
    ensures
        number_at_start(be32(n)) == n,
        be32(n).len() == 4,
{
}

/// What was written as a message is read as that message, whatever follows it. A frame that
/// announces more than the greatest length is refused.
pub proof fn law_message_read_back(data: Seq<u8>, rest: Seq<u8>)
    requires
        data.len() <= u32::MAX,
    ensures
        data.len() <= MAX_MSG_LEN ==> wire::gives(message_in(frame(data) + rest), data)
            && input_after(frame(data) + rest) == rest,
        data.len() > MAX_MSG_LEN ==> wire::fails(
            message_in(frame(data) + rest),
            too_large(data.len() as int),
        ),
{
    let n = data.len() as int;
    lemma_be32(n);
    let input = frame(data) + rest;
    assert(input.take(4) =~= be32(n));
    assert(number_at_start(input) == number_at_start(be32(n)));
    if n <= MAX_MSG_LEN {
        assert(input.subrange(4, 4 + n) =~= data);
        assert(input.skip(4 + n) =~= rest);
    }
}

/// Input to which the missing bytes were added holds no fewer than asked for: its first
/// message can then be read or refused without waiting.
pub proof fn law_missing_bytes_decide(input: Seq<u8>, more: Seq<u8>)
    requires
        input.len() >= 4,
        more.len() == missing_bytes(input),
    ensures
        missing_bytes(input + more) == 0,
        message_in(input + more) is Ok || number_at_start(input) > MAX_MSG_LEN,
{
    assert((input + more).take(4) =~= input.take(4));
    assert(number_at_start(input + more) == number_at_start(input));
}

/// A message on the wire is its bytes behind four that hold their number, the most
/// significant first.
pub proof fn law_header_holds_the_length(data: Seq<u8>)
    requires
        data.len() <= u32::MAX,
    ensures
        ({
            let bytes = frame(data);
            &&& bytes.len() == 4 + data.len()
            &&& bytes[0] * 0x100_0000 + bytes[1] * 0x1_0000 + bytes[2] * 0x100 + bytes[3]
                == data.len()
            &&& bytes.skip(4) == data
        }),
{
    lemma_be32(data.len() as int);
    assert(frame(data).skip(4) =~= data);
    assert(frame(data).take(4) =~= be32(data.len() as int));
}

/// A message is read exactly where its header has come, announces no more than sixteen
/// megabytes, and as many bytes follow as it announces. These bytes are the message, and
/// what follows them is left. Of input that announces too much only the header is taken,
/// and input that is cut short stays as it is.
pub proof fn law_message_is_what_is_announced(input: Seq<u8>)
    ensures
        ({
            let n = input[0] * 0x100_0000 + input[1] * 0x1_0000 + input[2] * 0x100 + input[3];
            let most = 16 * 1024 * 1024;
            &&& message_in(input) is Ok <==> input.len() >= 4 && n <= most && input.len() >= 4 + n
            &&& message_in(input) matches Ok(data) ==> data.len() == n && input == input.take(4)
                + data + input_after(input)
            &&& input.len() >= 4 && n > most ==> input_after(input) == input.skip(4)
            &&& input.len() < 4 || (n <= most && input.len() < 4 + n) ==> input_after(input)
                == input
        }),
{
    if message_in(input) is Ok {
        let n = number_at_start(input);
        assert(input =~= input.take(4) + input.subrange(4, 4 + n) + input.skip(4 + n));
    }
}

/// Bytes are missing exactly while the first message can neither be read nor refused, and
/// while fewer have come the message is not there.
pub proof fn law_missing_bytes_are_needed(input: Seq<u8>)
    ensures
        missing_bytes(input) >= 0,
        missing_bytes(input) == 0 <==> (message_in(input) is Ok || input_after(input) != input),
        forall|more: Seq<u8>|
            input.len() >= 4 && more.len() < missing_bytes(input) ==> message_in(
                #[trigger] (input + more),
            ) is Err,
        input.len() < 4 ==> missing_bytes(input) + input.len() == 4,
{
    if input.len() >= 4 {
        assert forall|more: Seq<u8>| more.len() < missing_bytes(input) implies message_in(
            #[trigger] (input + more),
        ) is Err by {
            assert((input + more).take(4) =~= input.take(4));
            assert((input + more)[0] == input[0] && (input + more)[1] == input[1] && (input
                + more)[2] == input[2] && (input + more)[3] == input[3]);
        }
        assert(input.skip(4).len() != input.len());
    }
}

/// Writes a message. It is refused, and nothing is written, when it is longer than the
/// greatest length.
pub fn write_message(out: &mut Vec<u8>, data: &[u8]) -> (r: Result<(), SandboxError>)
    ensures
        match r {
            Ok(_) => data@.len() <= MAX_MSG_LEN && final(out)@ == old(out)@ + frame(data@),
            Err(e) => data@.len() > MAX_MSG_LEN && e.is_ipc("message too large"@) && final(out)@
                == old(out)@,
        },
{
    let n: usize = data.len();
    if n > MAX_MSG_LEN {
        return Err(SandboxError::Ipc("message too large".to_owned()));
    }
    let len: u64 = n as u64;
    out.push((len / 16777216) as u8);
    out.push((len / 65536 % 256) as u8);
    out.push((len / 256 % 256) as u8);
    out.push((len % 256) as u8);
    for i in 0..n
        invariant
            n == data@.len(),
            out@ == old(out)@ + be32(n as int) + data@.take(i as int),
    {
        out.push(data[i]);
        assert(data@.take(i + 1) =~= data@.take(i as int).push(data@[i as int]));
    }
    proof {
        assert(data@.take(n as int) =~= data@);
        assert(out@ =~= old(out)@ + frame(data@));
    }
    Ok(())
}

/// The length that a header announces.
fn header_len(input: &[u8]) -> (n: u64)
    requires
        input@.len() >= 4,
    ensures
        n == number_at_start(input@),
        n <= u32::MAX,
{
    input[0] as u64 * 16777216 + input[1] as u64 * 65536 + input[2] as u64 * 256 + input[3] as u64
}

/// How many more bytes must arrive before the first message can be read or refused.
pub fn bytes_wanted(input: &[u8]) -> (n: usize)
    ensures
        n == missing_bytes(input@),
{
    let have: usize = input.len();
    if have < 4 {
        return 4 - have;
    }
    let len: u64 = header_len(input);
    if len > MAX_MSG_LEN as u64 {
        return 0;
    }
    let whole: usize = 4 + len as usize;
    if have >= whole {
        0
    } else {
        whole - have
    }
}

/// Reads a message from the start of the input.
pub fn read_message(input: &mut Vec<u8>) -> (r: Result<Vec<u8>, SandboxError>)
    ensures
        match r {
            Ok(d) => wire::gives(message_in(old(input)@), d@),
            Err(e) => e is Ipc && wire::fails(message_in(old(input)@), e.message()),
        },
        final(input)@ == input_after(old(input)@),
{
    let have: usize = input.len();
    if have < 4 {
        return Err(
            SandboxError::Ipc("read header: failed to fill whole buffer".to_owned()),
        );
    }
    let len: u64 = header_len(input.as_slice());
    if len > MAX_MSG_LEN as u64 {
        let rest = input.split_off(4);
        *input = rest;
        proof {
            assert(rest@ =~= old(input)@.skip(4));
        }
        let mut m = "message too large: ".to_owned();
        m.append(decimal_u64(len).as_str());
        m.append(" bytes (max ");
        m.append(decimal_u64(MAX_MSG_LEN as u64).as_str());
        m.append(")");
        return Err(SandboxError::Ipc(m));
    }
    let whole: usize = 4 + len as usize;
    if have < whole {
        return Err(
            SandboxError::Ipc("read payload: failed to fill whole buffer".to_owned()),
        );
    }
    let rest = input.split_off(whole);
    let data = input.split_off(4);
    *input = rest;
    proof {
        assert(rest@ =~= old(input)@.skip(4 + len as int));
        assert(data@ =~= old(input)@.subrange(4, 4 + len as int));
    }
    Ok(data)
}

// ── JSON messages ──

/// The bytes of a tree's JSON text.
pub open spec fn sent(t: JsonTree) -> Seq<u8> {
    vstd::utf8::encode_utf8(json::json_text(t))
}

/// Puts a label before the reason of a failure.
pub open spec fn labelled<T>(label: Seq<char>, r: Result<T, Seq<char>>) -> Result<T, Seq<char>> {
    match r {
        Ok(v) => Ok(v),
        Err(e) => Err(label + e),
    }
}

/// The JSON value at the start of the input.
pub open spec fn json_in(input: Seq<u8>, label: Seq<char>) -> Result<JsonTree, Seq<char>> {
    match message_in(input) {
        Err(e) => Err(e),
        Ok(data) => labelled(label, json::parsed_json(data)),
    }
}

/// Whether a tree was written to the output as one message.
pub open spec fn wrote(
    r: Result<(), SandboxError>,
    before: Seq<u8>,
    after: Seq<u8>,
    t: JsonTree,
) -> bool {
    match r {
        Ok(_) => sent(t).len() <= MAX_MSG_LEN && after == before + frame(sent(t)),
        Err(e) => sent(t).len() > MAX_MSG_LEN && e.is_ipc("message too large"@) && after
            == before,
    }
}

/// Whether a written tree is short and plain enough to be read back.
pub open spec fn readable(t: JsonTree) -> bool {
    t.plain_within(json::max_nesting()) && sent(t).len() <= MAX_MSG_LEN
}

/// Whether a handshake with this name is read from its message, whatever follows it.
pub open spec fn handshake_arrives(name: Seq<char>) -> bool {
    let t = wire::handshake_tree(greeting(name));
    sent(t).len() <= MAX_MSG_LEN ==> forall|rest: Seq<u8>|
        wire::gives(handshake_in(#[trigger] (frame(sent(t)) + rest)), name)
}

/// Whether a setup message is read from its message as it is, whatever follows it.
pub open spec fn setup_arrives(m: SetupView) -> bool {
    let t = wire::setup_tree(m);
    sent(t).len() <= MAX_MSG_LEN ==> forall|rest: Seq<u8>|
        wire::gives(setup_in(#[trigger] (frame(sent(t)) + rest)), m)
}

/// Whether the parent reads this message from the child as it is, whatever follows it.
pub open spec fn arrives_at_parent(m: ChildMsgView) -> bool {
    let t = wire::child_tree(m);
    sent(t).len() <= MAX_MSG_LEN ==> forall|rest: Seq<u8>|
        wire::gives(child_msg_in(#[trigger] (frame(sent(t)) + rest)), m)
}

/// Whether the child reads this message from the parent as it is, whatever follows it.
pub open spec fn arrives_at_child(m: ParentMsgView) -> bool {
    let t = wire::parent_tree(m);
    sent(t).len() <= MAX_MSG_LEN ==> forall|rest: Seq<u8>|
        wire::gives(parent_msg_in(#[trigger] (frame(sent(t)) + rest)), m)
}

/// Writes a JSON value as a message. A plain one is read back as it was written.
fn send_json(out: &mut Vec<u8>, j: &Json) -> (r: Result<(), SandboxError>)
    ensures
        wrote(r, old(out)@, final(out)@, j.tree()),
        readable(j.tree()) ==> json::parsed_json(sent(j.tree())) == json::read_ok(j.tree()),
{
    let data = j.to_bytes();
    write_message(out, data.as_slice())
}

/// Reads a JSON value from a message.
fn recv_json(input: &mut Vec<u8>, label: &str) -> (r: Result<Json, SandboxError>)
    ensures
        match r {
            Ok(j) => wire::gives(json_in(old(input)@, label@), j.tree()),
            Err(e) => e is Ipc && wire::fails(json_in(old(input)@, label@), e.message()),
        },
        final(input)@ == input_after(old(input)@),
{
    match read_message(input) {
        Err(e) => Err(e),
        Ok(data) => match Json::parse(data.as_slice()) {
            Err(e) => Err(ipc_error(label, e.as_str())),
            Ok(j) => Ok(j),
        },
    }
}

/// The model of a handshake with the current version.
pub open spec fn greeting(name: Seq<char>) -> HandshakeView {
    HandshakeView { name, version: HANDSHAKE_VERSION }
}

/// The reason for a handshake of another version.
pub open spec fn version_mismatch(got: u32) -> Seq<char> {
    "handshake version mismatch: expected "@ + text::decimal(HANDSHAKE_VERSION as nat)
        + ", got "@ + text::decimal(got as nat)
}

/// The name in the handshake at the start of the input. Its version must be the current
/// one.
pub open spec fn handshake_in(input: Seq<u8>) -> Result<Seq<char>, Seq<char>> {
    match json_in(input, "handshake deserialize: "@) {
        Err(e) => Err(e),
        Ok(t) => match labelled("handshake deserialize: "@, wire::read_handshake(t)) {
            Err(e) => Err(e),
            Ok(h) => if h.version == HANDSHAKE_VERSION {
                Ok(h.name)
            } else {
                Err(version_mismatch(h.version))
            },
        },
    }
}

/// The setup message at the start of the input.
pub open spec fn setup_in(input: Seq<u8>) -> Result<SetupView, Seq<char>> {
    match json_in(input, "setup deserialize: "@) {
        Err(e) => Err(e),
        Ok(t) => labelled("setup deserialize: "@, wire::read_setup(t)),
    }
}

/// The message from the child at the start of the input.
pub open spec fn child_msg_in(input: Seq<u8>) -> Result<ChildMsgView, Seq<char>> {
    match json_in(input, "deserialize child msg: "@) {
        Err(e) => Err(e),
        Ok(t) => labelled("deserialize child msg: "@, wire::read_child(t)),
    }
}

/// The message from the parent at the start of the input.
pub open spec fn parent_msg_in(input: Seq<u8>) -> Result<ParentMsgView, Seq<char>> {
    match json_in(input, "deserialize parent msg: "@) {
        Err(e) => Err(e),
        Ok(t) => labelled("deserialize parent msg: "@, wire::read_parent(t)),
    }
}

/// Writes a handshake. The other side reads the name from it.
pub fn send_handshake(out: &mut Vec<u8>, name: &str) -> (r: Result<(), SandboxError>)
    ensures
        wrote(r, old(out)@, final(out)@, wire::handshake_tree(greeting(name@))),
        handshake_arrives(name@),
{
    let h = Handshake { name: name.to_owned(), version: HANDSHAKE_VERSION };
    let j = codec::handshake_json(&h);
    proof {
        lemma_read_back(j.tree());
        wire::law_handshake_read_back(h@);
    }
    send_json(out, &j)
}

/// The name in a handshake, if its version is the current one.
pub fn check_version(h: Handshake) -> (r: Result<String, SandboxError>)
    ensures
        match r {
            Ok(n) => h.version == HANDSHAKE_VERSION && n == h.name,
            Err(e) => h.version != HANDSHAKE_VERSION && e.is_ipc(version_mismatch(h.version)),
        },
{
    if h.version != HANDSHAKE_VERSION {
        let mut m = "handshake version mismatch: expected ".to_owned();
        m.append(decimal_u64(HANDSHAKE_VERSION as u64).as_str());
        m.append(", got ");
        m.append(decimal_u64(h.version as u64).as_str());
        Err(SandboxError::Ipc(m))
    } else {
        Ok(h.name)
    }
}

/// Reads a handshake and gives the name in it.
pub fn recv_handshake(input: &mut Vec<u8>) -> (r: Result<String, SandboxError>)
    ensures
        match r {
            Ok(n) => wire::gives(handshake_in(old(input)@), n@),
            Err(e) => e is Ipc && wire::fails(handshake_in(old(input)@), e.message()),
        },
        final(input)@ == input_after(old(input)@),
{
    let j = match recv_json(input, "handshake deserialize: ") {
        Ok(j) => j,
        Err(e) => return Err(e),
    };
    match codec::handshake_from(&j) {
        Err(e) => Err(ipc_error("handshake deserialize: ", e.as_str())),
        Ok(h) => check_version(h),
    }
}

/// A readable tree comes back from its message, whatever follows it.
proof fn lemma_read_back(t: JsonTree)
    ensures
        readable(t) && json::parsed_json(sent(t)) == json::read_ok(t) ==> forall|rest: Seq<u8>|
            message_in(#[trigger] (frame(sent(t)) + rest)) == Ok::<Seq<u8>, Seq<char>>(sent(t)),
{
    if readable(t) {
        assert forall|rest: Seq<u8>|
            message_in(#[trigger] (frame(sent(t)) + rest)) == Ok::<Seq<u8>, Seq<char>>(sent(t)) by {
            law_message_read_back(sent(t), rest);
        }
    }
}

/// Writes a setup message. The other side reads it as it was written.
pub fn send_setup(out: &mut Vec<u8>, msg: &SetupMessage) -> (r: Result<(), SandboxError>)
    ensures
        wrote(r, old(out)@, final(out)@, wire::setup_tree(msg@)),
        setup_arrives(msg@),
{
    let j = codec::setup_json(msg);
    proof {
        lemma_read_back(j.tree());
        wire::law_setup_read_back(msg@);
    }
    send_json(out, &j)
}

/// Reads a setup message.
pub fn recv_setup(input: &mut Vec<u8>) -> (r: Result<SetupMessage, SandboxError>)
    ensures
        match r {
            Ok(m) => wire::gives(setup_in(old(input)@), m@),
            Err(e) => e is Ipc && wire::fails(setup_in(old(input)@), e.message()),
        },
        final(input)@ == input_after(old(input)@),
{
    match recv_json(input, "setup deserialize: ") {
        Err(e) => Err(e),
        Ok(j) => match codec::setup_from(&j) {
            Err(e) => Err(ipc_error("setup deserialize: ", e.as_str())),
            Ok(m) => Ok(m),
        },
    }
}

/// Writes a message from the child. The parent reads a plain one as it was written.
pub fn send_child_msg(out: &mut Vec<u8>, msg: &ChildMsg) -> (r: Result<(), SandboxError>)
    ensures
        wrote(r, old(out)@, final(out)@, wire::child_tree(msg@)),
        wire::plain_child(msg@) && !wire::holds_null_output(msg@) ==> arrives_at_parent(msg@),
{
    let j = codec::child_json(msg);
    proof {
        lemma_read_back(j.tree());
        if wire::plain_child(msg@) && !wire::holds_null_output(msg@) {
            wire::lemma_plain_child(msg@);
            wire::law_child_read_back(msg@);
        }
    }
    send_json(out, &j)
}

/// Reads a message from the child.
pub fn recv_child_msg(input: &mut Vec<u8>) -> (r: Result<ChildMsg, SandboxError>)
    ensures
        match r {
            Ok(m) => wire::gives(child_msg_in(old(input)@), m@),
            Err(e) => e is Ipc && wire::fails(child_msg_in(old(input)@), e.message()),
        },
        final(input)@ == input_after(old(input)@),
{
    match recv_json(input, "deserialize child msg: ") {
        Err(e) => Err(e),
        Ok(j) => match codec::child_from(&j) {
            Err(e) => Err(ipc_error("deserialize child msg: ", e.as_str())),
            Ok(m) => Ok(m),
        },
    }
}

/// Writes a message from the parent. The child reads a plain one as it was written.
pub fn send_parent_msg(out: &mut Vec<u8>, msg: &ParentMsg) -> (r: Result<(), SandboxError>)
    ensures
        wrote(r, old(out)@, final(out)@, wire::parent_tree(msg@)),
        wire::plain_parent(msg@) ==> arrives_at_child(msg@),
{
    let j = codec::parent_json(msg);
    proof {
        lemma_read_back(j.tree());
        if wire::plain_parent(msg@) {
            wire::lemma_plain_parent(msg@);
            wire::law_parent_read_back(msg@);
        }
    }
    send_json(out, &j)
}

/// Reads a message from the parent.
pub fn recv_parent_msg(input: &mut Vec<u8>) -> (r: Result<ParentMsg, SandboxError>)
    ensures
        match r {
            Ok(m) => wire::gives(parent_msg_in(old(input)@), m@),
            Err(e) => e is Ipc && wire::fails(parent_msg_in(old(input)@), e.message()),
        },
        final(input)@ == input_after(old(input)@),
{
    match recv_json(input, "deserialize parent msg: ") {
        Err(e) => Err(e),
        Ok(j) => match codec::parent_from(&j) {
            Err(e) => Err(ipc_error("deserialize parent msg: ", e.as_str())),
            Ok(m) => Ok(m),
        },
    }
}

/// Asks the child to exit.
pub fn send_exit(out: &mut Vec<u8>) -> (r: Result<(), SandboxError>)
    ensures
        wrote(r, old(out)@, final(out)@, wire::parent_tree(ParentMsgView::Exit)),
        arrives_at_child(ParentMsgView::Exit),
{
    send_parent_msg(out, &ParentMsg::Exit)
}

// ── Synchronisation ──

/// The child waits for its user map: the bytes of `ready`.
pub const SYNC_READY: [u8; 5] = [114, 101, 97, 100, 121];

/// The child may go on: the bytes of `go`.
pub const SYNC_GO: [u8; 2] = [103, 111];

/// Bytes as text in a message: quoted, and a question mark where they are no text.
pub open spec fn shown(bytes: Seq<u8>) -> Seq<char> {
    if vstd::utf8::valid_utf8(bytes) {
        text::debug_text(vstd::utf8::decode_utf8(bytes))
    } else {
        text::debug_text("?"@)
    }
}

/// The reason for a synchronisation word that was not expected.
pub open spec fn unexpected_sync(expected: Seq<u8>, got: Seq<u8>) -> Seq<char> {
    "unexpected sync message: expected "@ + shown(expected) + ", got "@ + shown(got)
}

/// Writes a synchronisation word, without a header.
pub fn send_sync(out: &mut Vec<u8>, msg: &[u8]) -> (r: Result<(), SandboxError>)
    ensures
        r is Ok,
        final(out)@ == old(out)@ + msg@,
{
    for i in 0..msg.len()
        invariant
            out@ == old(out)@ + msg@.take(i as int),
    {
        out.push(msg[i]);
        assert(msg@.take(i + 1) =~= msg@.take(i as int).push(msg@[i as int]));
    }
    assert(msg@.take(msg@.len() as int) =~= msg@);
    Ok(())
}

fn shown_bytes(bytes: &[u8]) -> (s: String)
    ensures
        s@ == shown(bytes@),
{
    match utf8_text(bytes) {
        Ok(t) => debug_quoted(t.as_str()),
        Err(_) => debug_quoted("?"),
    }
}

/// Whether two byte strings are equal.
fn same_bytes(a: &[u8], b: &[u8]) -> (r: bool)
    ensures
        r == (a@ == b@),
{
    if a.len() != b.len() {
        return false;
    }
    for i in 0..a.len()
        invariant
            a@.len() == b@.len(),
            forall|k: int| 0 <= k < i ==> a@[k] == b@[k],
    {
        if a[i] != b[i] {
            return false;
        }
    }
    assert(a@ =~= b@);
    true
}

/// Reads as many bytes as the expected word has and compares them with it.
pub fn recv_sync(input: &mut Vec<u8>, expected: &[u8]) -> (r: Result<(), SandboxError>)
    ensures
        ({
            let n = expected@.len() as int;
            let got = old(input)@;
            if got.len() < n {
                r matches Err(e) && e.is_ipc("sync recv: failed to fill whole buffer"@)
                    && final(input)@ == got
            } else {
                &&& final(input)@ == got.skip(n)
                &&& r is Ok <==> got.take(n) == expected@
                &&& r matches Err(e) ==> e.is_ipc(unexpected_sync(expected@, got.take(n)))
            }
        }),
{
    let n: usize = expected.len();
    if input.len() < n {
        return Err(SandboxError::Ipc("sync recv: failed to fill whole buffer".to_owned()));
    }
    let rest = input.split_off(n);
    let mut got: Vec<u8> = rest;
    std::mem::swap(&mut got, input);
    proof {
        assert(got@ =~= old(input)@.take(n as int));
        assert(input@ =~= old(input)@.skip(n as int));
    }
    if same_bytes(got.as_slice(), expected) {
        Ok(())
    } else {
        let mut m = "unexpected sync message: expected ".to_owned();
        m.append(shown_bytes(expected).as_str());
        m.append(", got ");
        m.append(shown_bytes(got.as_slice()).as_str());
        Err(SandboxError::Ipc(m))
    }
}

/// A synchronisation word that was sent is received, and nothing else is taken.
pub proof fn law_sync_read_back(word: Seq<u8>, rest: Seq<u8>)
    ensures
        (word + rest).take(word.len() as int) == word,
        (word + rest).skip(word.len() as int) == rest,
{
    assert((word + rest).take(word.len() as int) =~= word);
    assert((word + rest).skip(word.len() as int) =~= rest);
}

// ── Queries ──

/// The reason for an answer of another kind than the one awaited.
pub open spec fn unexpected_answer(wanted: Seq<char>, got: ChildMsgView) -> Seq<char> {
    "expected "@ + wanted + ", got "@ + text::debug_text(json::json_text(wire::child_tree(got)))
}

/// The directory listing that an answer carries.
pub open spec fn listing_of(m: ChildMsgView) -> Result<Seq<EntryView>, Seq<char>> {
    match m {
        ChildMsgView::LsResult { entries } => Ok(entries),
        other => Err(unexpected_answer("LsResult"@, other)),
    }
}

/// The working directory that an answer carries.
pub open spec fn pwd_of(m: ChildMsgView) -> Result<Seq<char>, Seq<char>> {
    match m {
        ChildMsgView::PwdResult { path } => Ok(path),
        other => Err(unexpected_answer("PwdResult"@, other)),
    }
}

/// Whether an answer confirms a change of directory.
pub open spec fn cd_of(m: ChildMsgView) -> Result<(), Seq<char>> {
    match m {
        ChildMsgView::CdResult => Ok(()),
        other => Err(unexpected_answer("CdResult"@, other)),
    }
}

/// The output of a command that an answer carries, and whether the command failed.
pub open spec fn exec_of(m: ChildMsgView) -> Result<(Seq<char>, bool), Seq<char>> {
    match m {
        ChildMsgView::ExecResult { output, is_error } => Ok((output, is_error)),
        other => Err(unexpected_answer("ExecResult"@, other)),
    }
}

/// The result of a tool that an answer carries.
pub open spec fn tool_result_of(m: ChildMsgView) -> Result<PayloadView, Seq<char>> {
    match m {
        ChildMsgView::ToolResult { result, .. } => Ok(result),
        other => Err(unexpected_answer("ToolResult"@, other)),
    }
}

/// What an answer of the awaited kind carries is handed on: all entries of a listing, the
/// path, the output of a command and whether it failed, and both the output and the error of
/// a tool.
pub proof fn law_answer_is_handed_on(m: ChildMsgView)
    ensures
        m matches ChildMsgView::LsResult { entries } ==> (listing_of(m) matches Ok(list) && list
            == entries),
        m matches ChildMsgView::PwdResult { path } ==> (pwd_of(m) matches Ok(p) && p == path),
        m is CdResult ==> cd_of(m) is Ok,
        m matches ChildMsgView::ExecResult { output, is_error } ==> (exec_of(m) matches Ok(p)
            && p.0 == output && p.1 == is_error),
        m matches ChildMsgView::ToolResult { call_id, result } ==> (tool_result_of(m) matches Ok(p)
            && p.output == result.output && p.error == result.error),
{
}

/// An answer of any other kind than the awaited one is refused.
pub proof fn law_other_answers_are_refused(m: ChildMsgView)
    ensures
        listing_of(m) is Ok <==> m is LsResult,
        pwd_of(m) is Ok <==> m is PwdResult,
        cd_of(m) is Ok <==> m is CdResult,
        exec_of(m) is Ok <==> m is ExecResult,
        tool_result_of(m) is Ok <==> m is ToolResult,
{
}

/// A payload that the child sends comes back to the parent with the same output and the same
/// error, whatever follows it.
pub proof fn law_payload_comes_back(call_id: u32, payload: PayloadView, rest: Seq<u8>)
    requires
        arrives_at_parent(ChildMsgView::ToolResult { call_id, result: payload }),
        sent(wire::child_tree(ChildMsgView::ToolResult { call_id, result: payload })).len()
            <= MAX_MSG_LEN,
    ensures
        child_msg_in(
            frame(sent(wire::child_tree(ChildMsgView::ToolResult { call_id, result: payload })))
                + rest,
        ) matches Ok(m) && (tool_result_of(m) matches Ok(p) && p.output == payload.output
            && p.error == payload.error),
{
}

fn unexpected(wanted: &str, got: &ChildMsg) -> (e: SandboxError)
    ensures
        e.is_ipc(unexpected_answer(wanted@, got@)),
{
    let mut m = "expected ".to_owned();
    m.append(wanted);
    m.append(", got ");
    m.append(debug_quoted(codec::child_json(got).to_text().as_str()).as_str());
    SandboxError::Ipc(m)
}

/// Asks for a directory listing. The answer is read by [`ls_answer`].
pub fn query_ls(out: &mut Vec<u8>, path: &str) -> (r: Result<(), SandboxError>)
    ensures
        wrote(r, old(out)@, final(out)@, wire::parent_tree(ParentMsgView::Ls { path: path@ })),
        arrives_at_child(ParentMsgView::Ls { path: path@ }),
{
    send_parent_msg(out, &ParentMsg::Ls { path: path.to_owned() })
}

/// The listing in the child's answer.
pub fn listing(msg: ChildMsg) -> (r: Result<Vec<DirEntry>, SandboxError>)
    ensures
        match r {
            Ok(v) => wire::gives(listing_of(msg@), entry_views(v@)),
            Err(e) => e is Ipc && wire::fails(listing_of(msg@), e.message()),
        },
{
    match msg {
        ChildMsg::LsResult { entries } => Ok(entries),
        other => Err(unexpected("LsResult", &other)),
    }
}

/// Reads the answer to a request for a directory listing.
pub fn ls_answer(input: &mut Vec<u8>) -> (r: Result<Vec<DirEntry>, SandboxError>)
    ensures
        match child_msg_in(old(input)@) {
            Err(text) => r matches Err(e) && e.is_ipc(text),
            Ok(m) => match r {
                Ok(v) => wire::gives(listing_of(m), entry_views(v@)),
                Err(e) => e is Ipc && wire::fails(listing_of(m), e.message()),
            },
        },
        child_msg_in(old(input)@) matches Ok(ChildMsgView::LsResult { entries }) ==> (
        r matches Ok(v) && entry_views(v@) == entries),
        final(input)@ == input_after(old(input)@),
{
    match recv_child_msg(input) {
        Err(e) => Err(e),
        Ok(msg) => listing(msg),
    }
}

/// Reads the answer to a request for a tool of the child.
pub fn tool_answer(input: &mut Vec<u8>) -> (r: Result<ToolResultPayload, SandboxError>)
    ensures
        match child_msg_in(old(input)@) {
            Err(text) => r matches Err(e) && e.is_ipc(text),
            Ok(m) => match r {
                Ok(p) => wire::gives(tool_result_of(m), p@),
                Err(e) => e is Ipc && wire::fails(tool_result_of(m), e.message()),
            },
        },
        child_msg_in(old(input)@) matches Ok(ChildMsgView::ToolResult { call_id, result }) ==> (
        r matches Ok(p) && p@.output == result.output && p@.error == result.error),
        final(input)@ == input_after(old(input)@),
{
    match recv_child_msg(input) {
        Err(e) => Err(e),
        Ok(ChildMsg::ToolResult { call_id, result }) => Ok(result),
        Ok(other) => Err(unexpected("ToolResult", &other)),
    }
}

/// Asks for the working directory. The answer is read by [`pwd_answer`].
pub fn query_pwd(out: &mut Vec<u8>) -> (r: Result<(), SandboxError>)
    ensures
        wrote(r, old(out)@, final(out)@, wire::parent_tree(ParentMsgView::Pwd)),
        arrives_at_child(ParentMsgView::Pwd),
{
    send_parent_msg(out, &ParentMsg::Pwd)
}

/// The working directory in the child's answer.
pub fn working_dir(msg: ChildMsg) -> (r: Result<String, SandboxError>)
    ensures
        match r {
            Ok(s) => wire::gives(pwd_of(msg@), s@),
            Err(e) => e is Ipc && wire::fails(pwd_of(msg@), e.message()),
        },
{
    match msg {
        ChildMsg::PwdResult { path } => Ok(path),
        other => Err(unexpected("PwdResult", &other)),
    }
}

/// Reads the answer to a request for the working directory.
pub fn pwd_answer(input: &mut Vec<u8>) -> (r: Result<String, SandboxError>)
    ensures
        match child_msg_in(old(input)@) {
            Err(text) => r matches Err(e) && e.is_ipc(text),
            Ok(m) => match r {
                Ok(s) => wire::gives(pwd_of(m), s@),
                Err(e) => e is Ipc && wire::fails(pwd_of(m), e.message()),
            },
        },
        child_msg_in(old(input)@) matches Ok(ChildMsgView::PwdResult { path }) ==> (r matches Ok(s)
            && s@ == path),
        final(input)@ == input_after(old(input)@),
{
    match recv_child_msg(input) {
        Err(e) => Err(e),
        Ok(msg) => working_dir(msg),
    }
}

/// Asks for a change of the working directory. The answer is read by [`cd_answer`].
pub fn query_cd(out: &mut Vec<u8>, path: &str) -> (r: Result<(), SandboxError>)
    ensures
        wrote(r, old(out)@, final(out)@, wire::parent_tree(ParentMsgView::Cd { path: path@ })),
        arrives_at_child(ParentMsgView::Cd { path: path@ }),
{
    send_parent_msg(out, &ParentMsg::Cd { path: path.to_owned() })
}

/// Whether the child's answer confirms a change of directory.
pub fn dir_changed(msg: ChildMsg) -> (r: Result<(), SandboxError>)
    ensures
        match r {
            Ok(_) => wire::gives(cd_of(msg@), ()),
            Err(e) => e is Ipc && wire::fails(cd_of(msg@), e.message()),
        },
{
    match msg {
        ChildMsg::CdResult => Ok(()),
        other => Err(unexpected("CdResult", &other)),
    }
}

/// Reads the answer to a request for a change of directory.
pub fn cd_answer(input: &mut Vec<u8>) -> (r: Result<(), SandboxError>)
    ensures
        match child_msg_in(old(input)@) {
            Err(text) => r matches Err(e) && e.is_ipc(text),
            Ok(m) => match r {
                Ok(_) => wire::gives(cd_of(m), ()),
                Err(e) => e is Ipc && wire::fails(cd_of(m), e.message()),
            },
        },
        r is Ok <==> child_msg_in(old(input)@) matches Ok(ChildMsgView::CdResult),
        final(input)@ == input_after(old(input)@),
{
    match recv_child_msg(input) {
        Err(e) => Err(e),
        Ok(msg) => dir_changed(msg),
    }
}

/// Asks for a shell command. The answer is read by [`exec_answer`].
pub fn query_exec(out: &mut Vec<u8>, command: &str) -> (r: Result<(), SandboxError>)
    ensures
        wrote(
            r,
            old(out)@,
            final(out)@,
            wire::parent_tree(ParentMsgView::Exec { command: command@ }),
        ),
        arrives_at_child(ParentMsgView::Exec { command: command@ }),
{
    send_parent_msg(out, &ParentMsg::Exec { command: command.to_owned() })
}

/// The output of a command in the child's answer, and whether the command failed.
pub fn command_result(msg: ChildMsg) -> (r: Result<(String, bool), SandboxError>)
    ensures
        match r {
            Ok(p) => wire::gives(exec_of(msg@), (p.0@, p.1)),
            Err(e) => e is Ipc && wire::fails(exec_of(msg@), e.message()),
        },
{
    match msg {
        ChildMsg::ExecResult { output, is_error } => Ok((output, is_error)),
        other => Err(unexpected("ExecResult", &other)),
    }
}

/// Reads the answer to a shell command.
pub fn exec_answer(input: &mut Vec<u8>) -> (r: Result<(String, bool), SandboxError>)
    ensures
        match child_msg_in(old(input)@) {
            Err(text) => r matches Err(e) && e.is_ipc(text),
            Ok(m) => match r {
                Ok(p) => wire::gives(exec_of(m), (p.0@, p.1)),
                Err(e) => e is Ipc && wire::fails(exec_of(m), e.message()),
            },
        },
        child_msg_in(old(input)@) matches Ok(ChildMsgView::ExecResult { output, is_error }) ==> (
        r matches Ok(p) && p.0@ == output && p.1 == is_error),
        final(input)@ == input_after(old(input)@),
{
    match recv_child_msg(input) {
        Err(e) => Err(e),
        Ok(msg) => command_result(msg),
    }
}

// ── Labels ──

/// The kind of a message from the child, as its `type` field names it.
pub fn child_msg_label(msg: &ChildMsg) -> (s: &'static str)
    ensures
        wire::gives(
            wire::read_tag("internally tagged enum ChildMsg"@, wire::child_tree(msg@)),
            s@,
        ),
{
    proof {
        wire::lemma_child_keys(msg@);
        wire::lemma_field_at(wire::child_fields(msg@), 0);
    }
    match msg {
        ChildMsg::Stdout { .. } => "stdout",
        ChildMsg::ToolCall { .. } => "tool_call",
        ChildMsg::Done { .. } => "done",
        ChildMsg::LsResult { .. } => "ls_result",
        ChildMsg::PwdResult { .. } => "pwd_result",
        ChildMsg::CdResult => "cd_result",
        ChildMsg::ExecResult { .. } => "exec_result",
        ChildMsg::ToolResult { .. } => "tool_result",
    }
}

/// The kind of a message from the parent, as its `type` field names it.
pub fn parent_msg_label(msg: &ParentMsg) -> (s: &'static str)
    ensures
        wire::gives(
            wire::read_tag("internally tagged enum ParentMsg"@, wire::parent_tree(msg@)),
            s@,
        ),
{
    proof {
        wire::lemma_parent_keys(msg@);
        wire::lemma_field_at(wire::parent_fields(msg@), 0);
    }
    match msg {
        ParentMsg::ToolResult { .. } => "tool_result",
        ParentMsg::ToolBatchResult { .. } => "tool_batch_result",
        ParentMsg::Cancel => "cancel",
        ParentMsg::Exit => "exit",
        ParentMsg::Ls { .. } => "ls",
        ParentMsg::Pwd => "pwd",
        ParentMsg::Cd { .. } => "cd",
        ParentMsg::Exec { .. } => "exec",
        ParentMsg::Run { .. } => "run",
        ParentMsg::ToolCall { .. } => "tool_call",
    }
}

/// A handshake is accepted exactly where its version is the current one, which is one; then
/// its name is handed on, and otherwise both versions are named.
pub proof fn law_version_decides(input: Seq<u8>, t: JsonTree, h: wire::HandshakeView)
    requires
        wire::gives(json_in(input, "handshake deserialize: "@), t),
        wire::gives(wire::read_handshake(t), h),
    ensures
        h.version == 1 ==> (handshake_in(input) matches Ok(name) && name == h.name),
        h.version != 1 ==> (handshake_in(input) matches Err(e) && e
            == "handshake version mismatch: expected "@ + text::decimal(1) + ", got "@
            + text::decimal(h.version as nat)),
        forall|name: Seq<char>| (#[trigger] greeting(name)).name == name && greeting(name).version
            == 1,
{
}

/// A message is there exactly where the bytes of one have come, they are JSON, and the value
/// is a message; each step that fails gives its reason, and those of the last two name what
/// was to be read.
pub proof fn law_reading_goes_in_steps(input: Seq<u8>)
    ensures
        match message_in(input) {
            Err(e) => wire::fails(child_msg_in(input), e) && wire::fails(parent_msg_in(input), e)
                && wire::fails(setup_in(input), e) && wire::fails(handshake_in(input), e),
            Ok(data) => match json::parsed_json(data) {
                Err(e) => wire::fails(child_msg_in(input), "deserialize child msg: "@ + e)
                    && wire::fails(parent_msg_in(input), "deserialize parent msg: "@ + e)
                    && wire::fails(setup_in(input), "setup deserialize: "@ + e) && wire::fails(
                    handshake_in(input),
                    "handshake deserialize: "@ + e,
                ),
                Ok(t) => {
                    &&& match wire::read_child(t) {
                        Ok(m) => wire::gives(child_msg_in(input), m),
                        Err(e) => wire::fails(child_msg_in(input), "deserialize child msg: "@ + e),
                    }
                    &&& match wire::read_parent(t) {
                        Ok(m) => wire::gives(parent_msg_in(input), m),
                        Err(e) => wire::fails(
                            parent_msg_in(input),
                            "deserialize parent msg: "@ + e,
                        ),
                    }
                    &&& match wire::read_setup(t) {
                        Ok(m) => wire::gives(setup_in(input), m),
                        Err(e) => wire::fails(setup_in(input), "setup deserialize: "@ + e),
                    }
                },
            },
        },
{
}

/// What is written comes behind what was there, as one whole message that holds the JSON text
/// of the value; a value whose text is longer than sixteen megabytes is refused, and nothing
/// is written.
pub proof fn law_message_is_written_whole(
    r: Result<(), SandboxError>,
    before: Seq<u8>,
    after: Seq<u8>,
    t: JsonTree,
)
    requires
        wrote(r, before, after, t),
    ensures
        ({
            let data = vstd::utf8::encode_utf8(json::json_text(t));
            &&& r is Ok <==> data.len() <= 16 * 1024 * 1024
            &&& r is Ok ==> before.is_prefix_of(after) && after.len() == before.len() + 4
                + data.len() && data.is_suffix_of(after) && wire::gives(
                message_in(after.skip(before.len() as int)),
                data,
            )
            &&& r is Err ==> after == before
        }),
{
    if r is Ok {
        let data = sent(t);
        let whole = frame(data);
        assert(after.skip(before.len() as int) =~= whole + Seq::<u8>::empty());
        law_message_read_back(data, Seq::empty());
        law_header_holds_the_length(data);
        assert(after.take(before.len() as int) =~= before);
        assert(after.skip(after.len() - data.len()) =~= data);
    }
}

/// An answer of another kind is refused with a text that names the kind that was awaited.
pub proof fn law_refusal_names_the_awaited_kind(m: ChildMsgView)
    ensures
        listing_of(m) matches Err(e) ==> ("expected "@ + "LsResult"@).is_prefix_of(e),
        pwd_of(m) matches Err(e) ==> ("expected "@ + "PwdResult"@).is_prefix_of(e),
        cd_of(m) matches Err(e) ==> ("expected "@ + "CdResult"@).is_prefix_of(e),
        exec_of(m) matches Err(e) ==> ("expected "@ + "ExecResult"@).is_prefix_of(e),
        tool_result_of(m) matches Err(e) ==> ("expected "@ + "ToolResult"@).is_prefix_of(e),
{
    lemma_refusal("LsResult"@, m);
    lemma_refusal("PwdResult"@, m);
    lemma_refusal("CdResult"@, m);
    lemma_refusal("ExecResult"@, m);
    lemma_refusal("ToolResult"@, m);
}

proof fn lemma_refusal(wanted: Seq<char>, m: ChildMsgView)
    ensures
        ("expected "@ + wanted).is_prefix_of(unexpected_answer(wanted, m)),
{
    let start = "expected "@ + wanted;
    assert(unexpected_answer(wanted, m).take(start.len() as int) =~= start);
}

/// The label of a message is its kind on the wire.
pub proof fn law_labels_name_the_kind(
    c: ChildMsg,
    p: ParentMsg,
    child: &'static str,
    parent: &'static str,
)
    requires
        call_ensures(child_msg_label, (&c,), child),
        call_ensures(parent_msg_label, (&p,), parent),
    ensures
        child@ == match c {
            ChildMsg::Stdout { .. } => "stdout"@,
            ChildMsg::ToolCall { .. } => "tool_call"@,
            ChildMsg::Done { .. } => "done"@,
            ChildMsg::LsResult { .. } => "ls_result"@,
            ChildMsg::PwdResult { .. } => "pwd_result"@,
            ChildMsg::CdResult => "cd_result"@,
            ChildMsg::ExecResult { .. } => "exec_result"@,
            ChildMsg::ToolResult { .. } => "tool_result"@,
        },
        parent@ == match p {
            ParentMsg::ToolResult { .. } => "tool_result"@,
            ParentMsg::ToolBatchResult { .. } => "tool_batch_result"@,
            ParentMsg::Cancel => "cancel"@,
            ParentMsg::Exit => "exit"@,
            ParentMsg::Ls { .. } => "ls"@,
            ParentMsg::Pwd => "pwd"@,
            ParentMsg::Cd { .. } => "cd"@,
            ParentMsg::Exec { .. } => "exec"@,
            ParentMsg::Run { .. } => "run"@,
            ParentMsg::ToolCall { .. } => "tool_call"@,
        },
{
    wire::lemma_child_keys(c@);
    wire::lemma_field_at(wire::child_fields(c@), 0);
    wire::lemma_parent_keys(p@);
    wire::lemma_field_at(wire::parent_fields(p@), 0);
}

/// What the parent asks of the child reaches it as it was asked, whatever follows it, and so
/// do the first messages.
pub proof fn law_request_comes_back(
    m: ParentMsgView,
    setup: wire::SetupView,
    name: Seq<char>,
    rest: Seq<u8>,
)
    ensures
        arrives_at_child(m) && sent(wire::parent_tree(m)).len() <= 16 * 1024 * 1024 ==> wire::gives(
            parent_msg_in(frame(sent(wire::parent_tree(m))) + rest),
            m,
        ),
        setup_arrives(setup) && sent(wire::setup_tree(setup)).len() <= 16 * 1024 * 1024
            ==> wire::gives(setup_in(frame(sent(wire::setup_tree(setup))) + rest), setup),
        handshake_arrives(name) && sent(wire::handshake_tree(greeting(name))).len() <= 16 * 1024
            * 1024 ==> wire::gives(
            handshake_in(frame(sent(wire::handshake_tree(greeting(name)))) + rest),
            name,
        ),
{
}

/// A frame that announces too much is refused with both numbers, and one that is cut short
/// with the part that is missing.
pub proof fn law_refused_frames_say_why(input: Seq<u8>)
    ensures
        ({
            let n = input[0] * 0x100_0000 + input[1] * 0x1_0000 + input[2] * 0x100 + input[3];
            &&& input.len() < 4 ==> wire::fails(
                message_in(input),
                "read header: failed to fill whole buffer"@,
            )
            &&& input.len() >= 4 && n > 16777216 ==> wire::fails(
                message_in(input),
                "message too large: "@ + text::decimal(n as nat) + " bytes (max "@ + text::decimal(
                    16777216,
                ) + ")"@,
            )
            &&& input.len() >= 4 && n <= 16777216 && input.len() < 4 + n ==> wire::fails(
                message_in(input),
                "read payload: failed to fill whole buffer"@,
            )
        }),
{
}

/// A synchronisation word that was not expected is named, quoted, behind the one that was; what
/// is no text is shown as a question mark.
pub proof fn law_unexpected_words_are_named(expected: Seq<u8>, got: Seq<u8>)
    ensures
        vstd::utf8::valid_utf8(expected) && vstd::utf8::valid_utf8(got) ==> unexpected_sync(
            expected,
            got,
        ) == "unexpected sync message: expected "@ + text::debug_text(
            vstd::utf8::decode_utf8(expected),
        ) + ", got "@ + text::debug_text(vstd::utf8::decode_utf8(got)),
        !vstd::utf8::valid_utf8(got) ==> shown(got) == text::debug_text("?"@),
{
}

/// A message that was written is read, and what follows it is left.
pub proof fn law_written_message_is_read(
    out: &mut Vec<u8>,
    data: &[u8],
    w: Result<(), SandboxError>,
    input: &mut Vec<u8>,
    r: Result<Vec<u8>, SandboxError>,
    rest: Seq<u8>,
)
    requires
        call_ensures(write_message, (out, data), w),
        old(out)@.len() == 0,
        old(input)@ == final(out)@ + rest,
        call_ensures(read_message, (input,), r),
    ensures
        w is Ok <==> data@.len() <= 16 * 1024 * 1024,
        w is Ok ==> (r matches Ok(v) && v@ == data@) && final(input)@ == rest,
        w is Err ==> final(out)@.len() == 0,
{
    if w is Ok {
        assert(final(out)@ =~= frame(data@));
        law_message_read_back(data@, rest);
    }
}

/// A tool's result that the child sends is what the parent's call gives, with both its output
/// and its error, and what follows it is left.
pub proof fn law_sent_result_is_answered(
    out: &mut Vec<u8>,
    call_id: u32,
    payload: ToolResultPayload,
    input: &mut Vec<u8>,
    r: Result<ToolResultPayload, SandboxError>,
    rest: Seq<u8>,
)
    requires
        call_ensures(
            send_child_msg,
            (out, &ChildMsg::ToolResult { call_id, result: payload }),
            Ok(()),
        ),
        old(out)@.len() == 0,
        old(input)@ == final(out)@ + rest,
        call_ensures(tool_answer, (input,), r),
    ensures
        r matches Ok(p) && wire::opt_view(p.output) == wire::opt_view(payload.output)
            && wire::opt_view(p.error) == wire::opt_view(payload.error),
        final(input)@ == rest,
{
    let msg = ChildMsg::ToolResult { call_id, result: payload };
    let data = sent(wire::child_tree(msg@));
    assert(wire::plain_child(msg@) && !wire::holds_null_output(msg@));
    assert(final(out)@ =~= frame(data));
    law_payload_comes_back(call_id, payload@, rest);
    law_message_read_back(data, rest);
}

/// What the child sends in answer to a query is what the query gives.
pub proof fn law_sent_answers_are_given(
    out: &mut Vec<u8>,
    msg: ChildMsg,
    input: &mut Vec<u8>,
    rest: Seq<u8>,
    ls: Result<Vec<DirEntry>, SandboxError>,
    pwd: Result<String, SandboxError>,
    cd: Result<(), SandboxError>,
    exec: Result<(String, bool), SandboxError>,
)
    requires
        call_ensures(send_child_msg, (out, &msg), Ok(())),
        old(out)@.len() == 0,
        old(input)@ == final(out)@ + rest,
    ensures
        msg matches ChildMsg::LsResult { entries } ==> (call_ensures(ls_answer, (input,), ls) ==> (
        ls matches Ok(v) && entry_views(v@) == entry_views(entries@) && final(input)@ == rest)),
        msg matches ChildMsg::PwdResult { path } ==> (call_ensures(pwd_answer, (input,), pwd) ==> (
        pwd matches Ok(s) && s@ == path@ && final(input)@ == rest)),
        msg is CdResult ==> (call_ensures(cd_answer, (input,), cd) ==> cd is Ok && final(input)@
            == rest),
        msg matches ChildMsg::ExecResult { output, is_error } ==> (call_ensures(
            exec_answer,
            (input,),
            exec,
        ) ==> (exec matches Ok(p) && p.0@ == output@ && p.1 == is_error && final(input)@ == rest)),
{
    if msg is LsResult || msg is PwdResult || msg is CdResult || msg is ExecResult {
        let data = sent(wire::child_tree(msg@));
        assert(wire::plain_child(msg@) && !wire::holds_null_output(msg@));
        assert(final(out)@ =~= frame(data));
        law_message_read_back(data, rest);
        assert(wire::gives(child_msg_in(frame(data) + rest), msg@));
    }
}

/// What the parent asks for is what the child reads.
pub proof fn law_sent_queries_are_read(
    out: &mut Vec<u8>,
    text: &str,
    input: &mut Vec<u8>,
    r: Result<ParentMsg, SandboxError>,
    rest: Seq<u8>,
)
    requires
        old(out)@.len() == 0,
        old(input)@ == final(out)@ + rest,
        call_ensures(recv_parent_msg, (input,), r),
    ensures
        call_ensures(query_ls, (out, text), Ok(())) ==> (r matches Ok(m) && (m matches
            ParentMsg::Ls { path } && path@ == text@) && final(input)@ == rest),
        call_ensures(query_cd, (out, text), Ok(())) ==> (r matches Ok(m) && (m matches
            ParentMsg::Cd { path } && path@ == text@) && final(input)@ == rest),
        call_ensures(query_exec, (out, text), Ok(())) ==> (r matches Ok(m) && (m matches
            ParentMsg::Exec { command } && command@ == text@) && final(input)@ == rest),
        call_ensures(query_pwd, (out,), Ok(())) ==> (r matches Ok(m) && m is Pwd) && final(input)@
            == rest,
        call_ensures(send_exit, (out,), Ok(())) ==> (r matches Ok(m) && m is Exit) && final(input)@
            == rest,
{
    lemma_query_read(
        ParentMsgView::Ls { path: text@ },
        old(out)@,
        final(out)@,
        old(input)@,
        rest,
    );
    lemma_query_read(
        ParentMsgView::Cd { path: text@ },
        old(out)@,
        final(out)@,
        old(input)@,
        rest,
    );
    lemma_query_read(
        ParentMsgView::Exec { command: text@ },
        old(out)@,
        final(out)@,
        old(input)@,
        rest,
    );
    lemma_query_read(ParentMsgView::Pwd, old(out)@, final(out)@, old(input)@, rest);
    lemma_query_read(ParentMsgView::Exit, old(out)@, final(out)@, old(input)@, rest);
}

proof fn lemma_query_read(
    m: ParentMsgView,
    before: Seq<u8>,
    after: Seq<u8>,
    input: Seq<u8>,
    rest: Seq<u8>,
)
    requires
        before.len() == 0,
        input == after + rest,
    ensures
        wrote(Ok(()), before, after, wire::parent_tree(m)) && arrives_at_child(m) ==> wire::gives(
            parent_msg_in(input),
            m,
        ) && input_after(input) == rest,
{
    if wrote(Ok(()), before, after, wire::parent_tree(m)) && arrives_at_child(m) {
        let data = sent(wire::parent_tree(m));
        assert(after =~= frame(data));
        law_message_read_back(data, rest);
    }
}

/// A synchronisation word that was sent is accepted by whoever expects it, and refused by
/// whoever expects another of its length.
pub proof fn law_sent_word_is_accepted(
    out: &mut Vec<u8>,
    word: &[u8],
    w: Result<(), SandboxError>,
    input: &mut Vec<u8>,
    expected: &[u8],
    r: Result<(), SandboxError>,
    rest: Seq<u8>,
)
    requires
        call_ensures(send_sync, (out, word), w),
        old(out)@.len() == 0,
        old(input)@ == final(out)@ + rest,
        call_ensures(recv_sync, (input, expected), r),
        expected@.len() == word@.len(),
    ensures
        w is Ok,
        r is Ok <==> expected@ == word@,
        final(input)@ == rest,
{
    assert(final(out)@ =~= word@);
    law_sync_read_back(word@, rest);
}

} // verus!
