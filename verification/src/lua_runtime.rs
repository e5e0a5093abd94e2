//! The Lua runtime of the child: the functions that plugins see, what those functions give
//! back, and where plugins and modules come from.

use vstd::prelude::*;

use crate::json;
use crate::json::{number_of_u64, Json};
use crate::lua;
use crate::lua::{json_to_lua, lua_str, lua_to_json, string_text, LuaData, LuaTree};
use crate::text;
use crate::text::{
    chars_of, concat, decimal_u64, join_path, path_file_name, path_parent, split, utf8_lossy,
};
use crate::wire;

verus! {

// ── The functions that plugins see ──

/// A function that plugins can call.
#[derive(Debug, Clone, Copy, PartialEq, Eq, Structural)]
pub enum ApiFn {
    FsRead,
    FsWrite,
    FsMetadata,
    FsDirname,
    FsBasename,
    FsAbspath,
    FsDir,
    FsMkdir,
    FsRm,
    FsGlob,
    FsGrep,
    UvCwd,
    UvOsHomedir,
    UvOsGetenv,
    LogDebug,
    LogInfo,
    LogWarn,
    LogError,
    UiBuf,
    UiHighlight,
    UiThemeColor,
    UiHumantime,
    RegisterTool,
    RegisterOptions,
    Noop,
    Jobstart,
    Jobwait,
    Jobstop,
    GetParser,
    GetNodeText,
    JsonEncode,
    JsonDecode,
    Split,
    AsyncRun,
}

/// A function with its place: a table below `maki`, or `maki` itself where the table has no
/// name.
#[derive(Debug, Clone, Copy)]
pub struct ApiEntry {
    pub table: &'static str,
    pub name: &'static str,
    pub func: ApiFn,
}

/// The model of a function with its place.
#[verifier::ext_equal]
pub struct ApiView {
    pub table: Seq<char>,
    pub name: Seq<char>,
    pub func: ApiFn,
}

/// The models of functions with their places.
pub open spec fn api_views(list: Seq<ApiEntry>) -> Seq<ApiView> {
    Seq::new(
        list.len(),
        |i: int| ApiView { table: list[i].table@, name: list[i].name@, func: list[i].func },
    )
}

/// A function with its place.
pub open spec fn api(table: Seq<char>, name: Seq<char>, func: ApiFn) -> ApiView {
    ApiView { table, name, func }
}

/// All functions that plugins see.
pub open spec fn maki_api() -> Seq<ApiView> {
    seq![
        api("fs"@, "read"@, ApiFn::FsRead),
        api("fs"@, "write"@, ApiFn::FsWrite),
        api("fs"@, "metadata"@, ApiFn::FsMetadata),
        api("fs"@, "dirname"@, ApiFn::FsDirname),
        api("fs"@, "basename"@, ApiFn::FsBasename),
        api("fs"@, "abspath"@, ApiFn::FsAbspath),
        api("fs"@, "dir"@, ApiFn::FsDir),
        api("fs"@, "mkdir"@, ApiFn::FsMkdir),
        api("fs"@, "rm"@, ApiFn::FsRm),
        api("fs"@, "glob"@, ApiFn::FsGlob),
        api("fs"@, "grep"@, ApiFn::FsGrep),
        api("uv"@, "cwd"@, ApiFn::UvCwd),
        api("uv"@, "os_homedir"@, ApiFn::UvOsHomedir),
        api("uv"@, "os_getenv"@, ApiFn::UvOsGetenv),
        api("log"@, "debug"@, ApiFn::LogDebug),
        api("log"@, "info"@, ApiFn::LogInfo),
        api("log"@, "warn"@, ApiFn::LogWarn),
        api("log"@, "error"@, ApiFn::LogError),
        api("ui"@, "buf"@, ApiFn::UiBuf),
        api("ui"@, "highlight"@, ApiFn::UiHighlight),
        api("ui"@, "theme_color"@, ApiFn::UiThemeColor),
        api("ui"@, "humantime"@, ApiFn::UiHumantime),
        api("api"@, "register_tool"@, ApiFn::RegisterTool),
        api("api"@, "register_options"@, ApiFn::RegisterOptions),
        api("api"@, "register_prompt_hint"@, ApiFn::Noop),
        api("api"@, "register_command"@, ApiFn::Noop),
        api("fn"@, "jobstart"@, ApiFn::Jobstart),
        api("fn"@, "jobwait"@, ApiFn::Jobwait),
        api("fn"@, "jobstop"@, ApiFn::Jobstop),
        api("treesitter"@, "get_parser"@, ApiFn::GetParser),
        api("treesitter"@, "get_node_text"@, ApiFn::GetNodeText),
        api("json"@, "encode"@, ApiFn::JsonEncode),
        api("json"@, "decode"@, ApiFn::JsonDecode),
        api(""@, "split"@, ApiFn::Split),
        api("async"@, "run"@, ApiFn::AsyncRun),
    ]
}

fn put(list: &mut Vec<ApiEntry>, table: &'static str, name: &'static str, func: ApiFn)
    ensures
        api_views(final(list)@) == api_views(old(list)@).push(api(table@, name@, func)),
{
    let ghost before = api_views(list@);
    list.push(ApiEntry { table, name, func });
    assert(api_views(list@) =~= before.push(api(table@, name@, func)));
}

/// The functions that plugins see.
pub fn create_maki_api() -> (list: Vec<ApiEntry>)
    ensures
        api_views(list@) == maki_api(),
{
    let mut list: Vec<ApiEntry> = Vec::new();
    assert(api_views(list@) =~= seq![]);
    put(&mut list, "fs", "read", ApiFn::FsRead);
    put(&mut list, "fs", "write", ApiFn::FsWrite);
    put(&mut list, "fs", "metadata", ApiFn::FsMetadata);
    put(&mut list, "fs", "dirname", ApiFn::FsDirname);
    put(&mut list, "fs", "basename", ApiFn::FsBasename);
    put(&mut list, "fs", "abspath", ApiFn::FsAbspath);
    put(&mut list, "fs", "dir", ApiFn::FsDir);
    put(&mut list, "fs", "mkdir", ApiFn::FsMkdir);
    put(&mut list, "fs", "rm", ApiFn::FsRm);
    put(&mut list, "fs", "glob", ApiFn::FsGlob);
    put(&mut list, "fs", "grep", ApiFn::FsGrep);
    put(&mut list, "uv", "cwd", ApiFn::UvCwd);
    put(&mut list, "uv", "os_homedir", ApiFn::UvOsHomedir);
    put(&mut list, "uv", "os_getenv", ApiFn::UvOsGetenv);
    put(&mut list, "log", "debug", ApiFn::LogDebug);
    put(&mut list, "log", "info", ApiFn::LogInfo);
    put(&mut list, "log", "warn", ApiFn::LogWarn);
    put(&mut list, "log", "error", ApiFn::LogError);
    put(&mut list, "ui", "buf", ApiFn::UiBuf);
    put(&mut list, "ui", "highlight", ApiFn::UiHighlight);
    put(&mut list, "ui", "theme_color", ApiFn::UiThemeColor);
    put(&mut list, "ui", "humantime", ApiFn::UiHumantime);
    put(&mut list, "api", "register_tool", ApiFn::RegisterTool);
    put(&mut list, "api", "register_options", ApiFn::RegisterOptions);
    put(&mut list, "api", "register_prompt_hint", ApiFn::Noop);
    put(&mut list, "api", "register_command", ApiFn::Noop);
    put(&mut list, "fn", "jobstart", ApiFn::Jobstart);
    put(&mut list, "fn", "jobwait", ApiFn::Jobwait);
    put(&mut list, "fn", "jobstop", ApiFn::Jobstop);
    put(&mut list, "treesitter", "get_parser", ApiFn::GetParser);
    put(&mut list, "treesitter", "get_node_text", ApiFn::GetNodeText);
    put(&mut list, "json", "encode", ApiFn::JsonEncode);
    put(&mut list, "json", "decode", ApiFn::JsonDecode);
    put(&mut list, "", "split", ApiFn::Split);
    put(&mut list, "async", "run", ApiFn::AsyncRun);
    assert(api_views(list@) =~= maki_api());
    list
}

// ── Values given back ──

/// A Lua string with a text.
pub open spec fn str_tree(s: Seq<char>) -> LuaTree {
    LuaTree::Str(vstd::utf8::encode_utf8(s))
}

/// A table with values from one on.
pub open spec fn list_tree(items: Seq<LuaTree>) -> LuaTree {
    LuaTree::Table(items, seq![])
}

/// A table with named values.
pub open spec fn record_tree(fields: Seq<(Seq<char>, LuaTree)>) -> LuaTree {
    LuaTree::Table(
        seq![],
        Seq::new(fields.len(), |i: int| (str_tree(fields[i].0), fields[i].1)),
    )
}

/// No value, and the reason for that.
pub open spec fn failed(label: Seq<char>, reason: Seq<char>) -> Seq<LuaTree> {
    seq![LuaTree::Nil, str_tree(label + reason)]
}

fn list(items: Vec<LuaData>) -> (d: LuaData)
    ensures
        d.tree() == list_tree(lua::data_trees(items@)),
{
    let pairs: Vec<(LuaData, LuaData)> = Vec::new();
    assert(lua::data_pairs(pairs@) =~= seq![]);
    LuaData::Table(items, pairs)
}

fn record(pairs: Vec<(LuaData, LuaData)>) -> (d: LuaData)
    ensures
        d.tree() == LuaTree::Table(seq![], lua::data_pairs(pairs@)),
{
    let items: Vec<LuaData> = Vec::new();
    assert(lua::data_trees(items@) =~= seq![]);
    LuaData::Table(items, pairs)
}

fn one(d: LuaData) -> (v: Vec<LuaData>)
    ensures
        lua::data_trees(v@) == seq![d.tree()],
{
    let mut v: Vec<LuaData> = Vec::new();
    v.push(d);
    proof {
        lua::lemma_data_trees(v@);
        assert(lua::data_trees(v@) =~= seq![d.tree()]);
    }
    v
}

fn two(a: LuaData, b: LuaData) -> (v: Vec<LuaData>)
    ensures
        lua::data_trees(v@) == seq![a.tree(), b.tree()],
{
    let mut v: Vec<LuaData> = Vec::new();
    v.push(a);
    v.push(b);
    proof {
        lua::lemma_data_trees(v@);
        assert(lua::data_trees(v@) =~= seq![a.tree(), b.tree()]);
    }
    v
}

fn failure(label: &str, reason: &str) -> (v: Vec<LuaData>)
    ensures
        lua::data_trees(v@) == failed(label@, reason@),
{
    two(LuaData::Nil, lua_str(concat(label, reason).as_str()))
}

/// What reading a file gives.
pub fn fs_read(r: Result<String, String>) -> (v: Vec<LuaData>)
    ensures
        lua::data_trees(v@) == match r {
            Ok(content) => seq![str_tree(content@)],
            Err(e) => failed("read error: "@, e@),
        },
{
    match r {
        Ok(content) => one(lua_str(content.as_str())),
        Err(e) => failure("read error: ", e.as_str()),
    }
}

/// The directory that is made before a file is written.
pub fn fs_write_parent(path: &str) -> (r: Option<String>)
    ensures
        wire::opt_view(r) == text::parent_path(path@),
{
    path_parent(path)
}

/// What writing a file gives.
pub fn fs_write(r: Result<(), String>) -> (v: Vec<LuaData>)
    ensures
        lua::data_trees(v@) == match r {
            Ok(_) => seq![LuaTree::Bool(true), LuaTree::Nil],
            Err(e) => failed("write error: "@, e@),
        },
{
    match r {
        Ok(_) => two(LuaData::Bool(true), LuaData::Nil),
        Err(e) => failure("write error: ", e.as_str()),
    }
}

/// What is known of a file.
#[derive(Debug, Clone, Copy)]
pub struct FileMeta {
    pub is_dir: bool,
    pub is_file: bool,
    pub size: u64,
}

/// A whole number as Lua has it: an integer, or where that is too small a number.
pub open spec fn is_uint(l: LuaTree, u: u64) -> bool {
    if u <= i64::MAX {
        l == LuaTree::Int(u as int)
    } else {
        l matches LuaTree::Float(n) && json::number_value(n) == Some(u as int)
    }
}

fn lua_uint(u: u64) -> (d: LuaData)
    ensures
        is_uint(d.tree(), u),
{
    if u <= i64::MAX as u64 {
        LuaData::Int(u as i64)
    } else {
        LuaData::Float(number_of_u64(u))
    }
}

/// What is known of a file, as a table.
pub open spec fn meta_tree(m: FileMeta, size: LuaTree) -> LuaTree {
    record_tree(
        seq![
            ("is_dir"@, LuaTree::Bool(m.is_dir)),
            ("is_file"@, LuaTree::Bool(m.is_file)),
            ("size"@, size),
        ],
    )
}

/// What asking for a file gives: a table, or nothing where there is no such file.
pub fn fs_metadata(meta: Option<FileMeta>) -> (d: LuaData)
    ensures
        match meta {
            None => d.tree() == LuaTree::Nil,
            Some(m) => exists|size: LuaTree|
                is_uint(size, m.size) && d.tree() == #[trigger] meta_tree(m, size),
        },
{
    match meta {
        None => LuaData::Nil,
        Some(m) => {
            let size = lua_uint(m.size);
            let ghost shown = meta_tree(m, size.tree());
            let mut pairs: Vec<(LuaData, LuaData)> = Vec::new();
            pairs.push((lua_str("is_dir"), LuaData::Bool(m.is_dir)));
            pairs.push((lua_str("is_file"), LuaData::Bool(m.is_file)));
            pairs.push((lua_str("size"), size));
            proof {
                lua::lemma_data_pairs(pairs@);
                assert(lua::data_pairs(pairs@) =~= shown->Table_1);
            }
            record(pairs)
        },
    }
}

/// A text, or nothing.
pub open spec fn str_or_nil(s: Option<Seq<char>>) -> LuaTree {
    match s {
        Some(t) => str_tree(t),
        None => LuaTree::Nil,
    }
}

/// A text, or nothing: what asking for the working directory, the home directory or a
/// variable gives.
pub fn text_or_nil(s: Option<String>) -> (d: LuaData)
    ensures
        d.tree() == str_or_nil(wire::opt_view(s)),
{
    match s {
        Some(t) => lua_str(t.as_str()),
        None => LuaData::Nil,
    }
}

/// The directory part of a path.
pub fn fs_dirname(path: &str) -> (d: LuaData)
    ensures
        d.tree() == str_or_nil(text::parent_path(path@)),
{
    text_or_nil(path_parent(path))
}

/// The name part of a path.
pub fn fs_basename(path: &str) -> (d: LuaData)
    ensures
        d.tree() == str_or_nil(text::final_component(path@)),
{
    text_or_nil(path_file_name(path))
}

/// A path as seen from the working directory, as far as that is known.
pub open spec fn absolute(path: Seq<char>, cwd: Option<Seq<char>>) -> Seq<char> {
    match cwd {
        Some(dir) => text::joined(dir, path),
        None => path,
    }
}

/// The absolute form of a path.
pub fn fs_abspath(path: &str, cwd: Option<String>) -> (d: LuaData)
    ensures
        d.tree() == str_tree(absolute(path@, wire::opt_view(cwd))),
{
    match cwd {
        Some(dir) => lua_str(join_path(dir.as_str(), path).as_str()),
        None => lua_str(path),
    }
}

/// An absolute path stays as it is.
pub proof fn law_absolute_paths_stay(path: Seq<char>, cwd: Option<Seq<char>>)
    requires
        path.len() > 0,
        path[0] == '/',
    ensures
        absolute(path, cwd) == path,
{
}

/// An entry of a directory: its name and its kind.
pub open spec fn dir_entry_tree(name: Seq<char>, is_dir: bool) -> LuaTree {
    list_tree(
        seq![
            str_tree(name),
            str_tree(
                if is_dir {
                    "directory"@
                } else {
                    "file"@
                },
            ),
        ],
    )
}

/// What listing a directory gives.
pub fn fs_dir(r: Result<Vec<(String, bool)>, String>) -> (v: Vec<LuaData>)
    ensures
        lua::data_trees(v@) == match r {
            Ok(found) => seq![
                list_tree(
                    Seq::new(
                        found@.len(),
                        |i: int| dir_entry_tree(found@[i].0@, found@[i].1),
                    ),
                ),
                LuaTree::Nil,
            ],
            Err(e) => failed("dir error: "@, e@),
        },
{
    match r {
        Err(e) => failure("dir error: ", e.as_str()),
        Ok(found) => {
            let mut items: Vec<LuaData> = Vec::new();
            for i in 0..found.len()
                invariant
                    items@.len() == i,
                    forall|k: int|
                        0 <= k < i ==> (#[trigger] items@[k]).tree() == dir_entry_tree(
                            found@[k].0@,
                            found@[k].1,
                        ),
            {
                let kind = if found[i].1 {
                    "directory"
                } else {
                    "file"
                };
                items.push(list(two(lua_str(found[i].0.as_str()), lua_str(kind))));
            }
            proof {
                lua::lemma_data_trees(items@);
                assert(lua::data_trees(items@) =~= Seq::new(
                    found@.len(),
                    |i: int| dir_entry_tree(found@[i].0@, found@[i].1),
                ));
            }
            two(list(items), LuaData::Nil)
        },
    }
}

/// What making a directory gives.
pub fn fs_mkdir(r: Result<(), String>) -> (v: Vec<LuaData>)
    ensures
        lua::data_trees(v@) == match r {
            Ok(_) => seq![LuaTree::Bool(true), LuaTree::Nil],
            Err(e) => failed("mkdir error: "@, e@),
        },
{
    match r {
        Ok(_) => two(LuaData::Bool(true), LuaData::Nil),
        Err(e) => failure("mkdir error: ", e.as_str()),
    }
}

/// What removing a file gives.
pub fn fs_rm(r: Result<(), String>) -> (v: Vec<LuaData>)
    ensures
        lua::data_trees(v@) == match r {
            Ok(_) => seq![LuaTree::Bool(true)],
            Err(e) => failed("rm error: "@, e@),
        },
{
    match r {
        Ok(_) => one(LuaData::Bool(true)),
        Err(e) => failure("rm error: ", e.as_str()),
    }
}

/// Where a search starts, and how much it may find: a hundred paths from the working
/// directory, unless it is told otherwise.
pub fn glob_options(path: Option<String>, cwd: Option<String>, limit: Option<usize>) -> (r: (
    String,
    usize,
))
    ensures
        r.0@ == match (path, cwd) {
            (Some(p), _) => p@,
            (None, Some(c)) => c@,
            (None, None) => seq![],
        },
        r.1 == match limit {
            Some(n) => n,
            None => 100,
        },
{
    let start = match path {
        Some(p) => p,
        None => match cwd {
            Some(c) => c,
            None => String::new(),
        },
    };
    let n: usize = match limit {
        Some(n) => n,
        None => 100,
    };
    (start, n)
}

fn strings(texts: &[String]) -> (items: Vec<LuaData>)
    ensures
        lua::data_trees(items@) == Seq::new(texts@.len(), |i: int| str_tree(texts@[i]@)),
{
    let mut items: Vec<LuaData> = Vec::new();
    for i in 0..texts.len()
        invariant
            items@.len() == i,
            forall|k: int| 0 <= k < i ==> (#[trigger] items@[k]).tree() == str_tree(texts@[k]@),
    {
        items.push(lua_str(texts[i].as_str()));
    }
    proof {
        lua::lemma_data_trees(items@);
        assert(lua::data_trees(items@) =~= Seq::new(
            texts@.len(),
            |i: int| str_tree(texts@[i]@),
        ));
    }
    items
}

/// What a search gives.
pub fn fs_glob(found: &[String]) -> (v: Vec<LuaData>)
    ensures
        lua::data_trees(v@) == seq![
            list_tree(Seq::new(found@.len(), |i: int| str_tree(found@[i]@))),
            LuaTree::Nil,
        ],
{
    two(list(strings(found)), LuaData::Nil)
}

/// Searching file contents is left to the parent.
pub fn fs_grep() -> (v: Vec<LuaData>)
    ensures
        lua::data_trees(v@) == seq![
            LuaTree::Nil,
            str_tree("grep not available in sandbox child"@),
        ],
{
    two(LuaData::Nil, lua_str("grep not available in sandbox child"))
}

/// A number of seconds, for people.
pub fn ui_humantime(secs: u64) -> (s: String)
    ensures
        s@ == text::decimal(secs as nat) + "s"@,
{
    let mut s = decimal_u64(secs);
    s.append("s");
    s
}

/// The name of a tool that a plugin registers. It needs a name and a handler.
pub fn register_tool(name: Option<String>, has_handler: bool) -> (r: Result<String, String>)
    ensures
        match name {
            None => r matches Err(e) && e@ == "register_tool: missing 'name'"@,
            Some(n) => if has_handler {
                r == Ok::<String, String>(n)
            } else {
                r matches Err(e) && e@ == "register_tool: missing 'handler'"@
            },
        },
{
    match name {
        None => Err("register_tool: missing 'name'".to_owned()),
        Some(n) => if has_handler {
            Ok(n)
        } else {
            Err("register_tool: missing 'handler'".to_owned())
        },
    }
}

/// What a job gives, as a table.
pub open spec fn job_tree(stdout: Seq<u8>, stderr: Seq<u8>, code: Option<i32>) -> LuaTree {
    record_tree(
        seq![
            ("stdout"@, str_tree(text::lossy_text(stdout))),
            ("stderr"@, str_tree(text::lossy_text(stderr))),
            (
                "exit_code"@,
                LuaTree::Int(
                    match code {
                        Some(c) => c as int,
                        None => -1,
                    },
                ),
            ),
        ],
    )
}

/// What a job gives: its output, its error output, and its exit code, which is minus one
/// where it has none.
pub fn job_result(stdout: &[u8], stderr: &[u8], code: Option<i32>) -> (d: LuaData)
    ensures
        d.tree() == job_tree(stdout@, stderr@, code),
{
    let exit_code: i64 = match code {
        Some(c) => c as i64,
        None => -1,
    };
    let ghost shown = job_tree(stdout@, stderr@, code);
    let mut pairs: Vec<(LuaData, LuaData)> = Vec::new();
    pairs.push((lua_str("stdout"), lua_str(utf8_lossy(stdout).as_str())));
    pairs.push((lua_str("stderr"), lua_str(utf8_lossy(stderr).as_str())));
    pairs.push((lua_str("exit_code"), LuaData::Int(exit_code)));
    proof {
        lua::lemma_data_pairs(pairs@);
        assert(lua::data_pairs(pairs@) =~= shown->Table_1);
    }
    record(pairs)
}

/// The JSON text of a Lua value.
pub fn json_encode(value: &LuaData) -> (r: Result<String, String>)
    ensures
        match lua::json_of(value.tree()) {
            Ok(t) => r matches Ok(s) && s@ == json::json_text(t),
            Err(reason) => r matches Err(e) && e@ == reason,
        },
{
    match lua_to_json(value) {
        Ok(j) => Ok(j.to_text()),
        Err(e) => Err(e),
    }
}

/// The Lua value of a JSON text.
pub fn json_decode(source: &str) -> (r: Result<LuaData, String>)
    ensures
        match json::parsed_json_text(source@) {
            Ok(t) => r matches Ok(d) && lua::stands_for(d.tree(), t),
            Err(reason) => r matches Err(e) && e@ == "json decode: "@ + reason,
        },
{
    match Json::parse_text(source) {
        Ok(j) => Ok(json_to_lua(&j)),
        Err(e) => Err(concat("json decode: ", e.as_str())),
    }
}

/// The pieces of a text around a separator.
pub fn maki_split(source: &str, sep: &str) -> (d: LuaData)
    ensures
        d.tree() == list_tree(
            Seq::new(
                text::split_parts(source@, sep@).len(),
                |i: int| str_tree(text::split_parts(source@, sep@)[i]),
            ),
        ),
{
    let parts = split(source, sep);
    let items = strings(parts.as_slice());
    proof {
        assert(text::views(parts@).len() == parts@.len());
        assert(lua::data_trees(items@) =~= Seq::new(
            text::split_parts(source@, sep@).len(),
            |i: int| str_tree(text::split_parts(source@, sep@)[i]),
        ));
    }
    list(items)
}

// ── Tool calls ──

/// A value that a tool's handler returned.
#[derive(Debug)]
pub enum LuaReturn {
    Nil,
    /// A string of bytes.
    Str(Vec<u8>),
    /// A table: its `llm_output` as a text, and its `is_error` as a switch, as far as they
    /// are such.
    Table(Option<String>, Option<bool>),
    /// Anything else.
    Other,
}

/// What a tool gave: its output and whether that is an error, from what its handler
/// returned. A text is an output, a text after nil an error, and a table says both.
pub open spec fn handler_result(values: Seq<LuaReturn>) -> Result<(Seq<char>, bool), Seq<char>> {
    if values.len() == 0 {
        Ok(("tool returned unexpected type"@, true))
    } else {
        match values[0] {
            LuaReturn::Str(b) => match lua::lua_text(b@) {
                Ok(s) => Ok((s, false)),
                Err(e) => Err(e),
            },
            LuaReturn::Table(output, is_error) => Ok(
                (
                    match output {
                        Some(s) => s@,
                        None => seq![],
                    },
                    match is_error {
                        Some(b) => b,
                        None => false,
                    },
                ),
            ),
            LuaReturn::Nil => if values.len() > 1 && values[1] is Str {
                match lua::lua_text(values[1]->Str_0@) {
                    Ok(s) => Ok((s, true)),
                    Err(e) => Err(e),
                }
            } else {
                Ok(("tool returned nil"@, true))
            },
            LuaReturn::Other => Ok(("tool returned unexpected type"@, true)),
        }
    }
}

/// A result taken from a table is an error exactly where the table's `is_error` is true,
/// whatever its output is, and its output is the table's `llm_output`, or empty.
pub proof fn law_table_says_whether_it_failed(
    output: Option<String>,
    is_error: Option<bool>,
    more: Seq<LuaReturn>,
)
    ensures
        handler_result(seq![LuaReturn::Table(output, is_error)] + more) matches Ok(p) && p.1 == (
        is_error == Some(true)) && p.0 == match output {
            Some(s) => s@,
            None => Seq::<char>::empty(),
        },
{
}

/// A text is never an error, and a text after nil always is; in both cases it is handed on.
/// What follows them does not count.
pub proof fn law_text_is_handed_on(bytes: Vec<u8>, more: Seq<LuaReturn>)
    requires
        vstd::utf8::valid_utf8(bytes@),
    ensures
        handler_result(seq![LuaReturn::Str(bytes)] + more) matches Ok(p) && p.0
            == vstd::utf8::decode_utf8(bytes@) && !p.1,
        handler_result(seq![LuaReturn::Nil, LuaReturn::Str(bytes)] + more) matches Ok(p) && p.0
            == vstd::utf8::decode_utf8(bytes@) && p.1,
{
    let first = seq![LuaReturn::Nil, LuaReturn::Str(bytes)] + more;
    assert(first[1] == LuaReturn::Str(bytes));
}

/// Bytes that are no text fail the call, also after nil.
pub proof fn law_bytes_that_are_no_text_fail(bytes: Vec<u8>, more: Seq<LuaReturn>)
    requires
        !vstd::utf8::valid_utf8(bytes@),
    ensures
        handler_result(seq![LuaReturn::Str(bytes)] + more) is Err,
        handler_result(seq![LuaReturn::Nil, LuaReturn::Str(bytes)] + more) is Err,
{
    let first = seq![LuaReturn::Nil, LuaReturn::Str(bytes)] + more;
    assert(first[1] == LuaReturn::Str(bytes));
}

/// Anything but a table or a text is an error.
pub proof fn law_anything_else_is_an_error(values: Seq<LuaReturn>)
    requires
        values.len() == 0 || values[0] is Nil || values[0] is Other,
    ensures
        handler_result(values) matches Ok(p) ==> p.1,
        handler_result(values) is Err ==> values.len() > 1 && values[0] is Nil && values[1] is Str,
        values.len() > 0 && values[0] is Nil && (values.len() == 1 || !(values[1] is Str)) ==> (
        handler_result(values) matches Ok(p) && p.0 == "tool returned nil"@),
        values.len() == 0 || values[0] is Other ==> (handler_result(values) matches Ok(p) && p.0
            == "tool returned unexpected type"@),
{
}

/// Extract `(output, is_error)` from Lua handler return values.
pub fn extract_tool_result(values: &[LuaReturn]) -> (r: Result<(String, bool), String>)
    ensures
        match r {
            Ok(p) => wire::gives(handler_result(values@), (p.0@, p.1)),
            Err(e) => wire::fails(handler_result(values@), e@),
        },
        values@.len() > 0 ==> (values@[0] matches LuaReturn::Table(_, is_error) ==> (r matches Ok(p)
            && p.1 == (is_error == Some(true)))),
{
    if values.len() == 0 {
        return Ok(("tool returned unexpected type".to_owned(), true));
    }
    match &values[0] {
        LuaReturn::Str(b) => match string_text(b.as_slice()) {
            Ok(s) => Ok((s, false)),
            Err(e) => Err(e),
        },
        LuaReturn::Table(output, is_error) => {
            let text = match output {
                Some(s) => s.clone(),
                None => String::new(),
            };
            let flag = match is_error {
                Some(b) => *b,
                None => false,
            };
            Ok((text, flag))
        },
        LuaReturn::Nil => {
            if values.len() > 1 {
                match &values[1] {
                    LuaReturn::Str(b) => {
                        return match string_text(b.as_slice()) {
                            Ok(s) => Ok((s, true)),
                            Err(e) => Err(e),
                        };
                    },
                    _ => {},
                }
            }
            Ok(("tool returned nil".to_owned(), true))
        },
        LuaReturn::Other => Ok(("tool returned unexpected type".to_owned(), true)),
    }
}

/// Why a tool could not be called, or failed.
#[derive(Debug)]
pub enum CallFailure {
    /// The table of tools is missing.
    NoTools(String),
    /// There is no tool of that name.
    NotFound(String),
    /// The input could not be converted.
    Input(String),
    /// The handler failed.
    Handler(String),
}

/// The text of a failed call.
pub open spec fn failure_text(name: Seq<char>, f: CallFailure) -> Seq<char> {
    match f {
        CallFailure::NoTools(e) => "no registered tools: "@ + e@,
        CallFailure::NotFound(e) => "tool '"@ + name + "' not found: "@ + e@,
        CallFailure::Input(e) => e@,
        CallFailure::Handler(e) => name + ": "@ + e@,
    }
}

/// What calling a tool gave: what its handler returned, or why it could not be called.
pub fn call_tool(name: &str, outcome: &Result<Vec<LuaReturn>, CallFailure>) -> (r: Result<
    (String, bool),
    String,
>)
    ensures
        match *outcome {
            Ok(values) => match r {
                Ok(p) => wire::gives(handler_result(values@), (p.0@, p.1)),
                Err(e) => wire::fails(handler_result(values@), e@),
            },
            Err(f) => r matches Err(e) && e@ == failure_text(name@, f),
        },
{
    match outcome {
        Ok(values) => extract_tool_result(values.as_slice()),
        Err(CallFailure::NoTools(e)) => Err(concat("no registered tools: ", e.as_str())),
        Err(CallFailure::NotFound(e)) => {
            let mut s = concat("tool '", name);
            s.append("' not found: ");
            s.append(e.as_str());
            Err(s)
        },
        Err(CallFailure::Input(e)) => Err(e.clone()),
        Err(CallFailure::Handler(e)) => {
            let mut s = concat(name, ": ");
            s.append(e.as_str());
            Err(s)
        },
    }
}

/// What a call of a tool that lives in the parent gave: its output, or the tool's name and
/// why it failed.
pub fn call_lua_tool(name: &str, outcome: Result<String, String>) -> (r: Result<String, String>)
    ensures
        match outcome {
            Ok(output) => r == Ok::<String, String>(output),
            Err(e) => r matches Err(m) && m@ == name@ + ": "@ + e@,
        },
{
    match outcome {
        Ok(output) => Ok(output),
        Err(e) => {
            let mut s = concat(name, ": ");
            s.append(e.as_str());
            Err(s)
        },
    }
}

// ── Modules and plugins ──

/// A module's name as a path.
pub open spec fn slashed(name: Seq<char>) -> Seq<char> {
    Seq::new(
        name.len(),
        |i: int|
            if name[i] == '.' {
                '/'
            } else {
                name[i]
            },
    )
}

/// The files that may hold a module, in the order in which they are tried.
pub open spec fn module_files(name: Seq<char>) -> Seq<Seq<char>> {
    seq![
        slashed(name) + ".lua"@,
        "lib/"@ + slashed(name) + ".lua"@,
        "lib/"@ + slashed(name) + "/init.lua"@,
    ]
}

/// The files that may hold a module.
pub fn require_candidates(name: &str) -> (files: Vec<String>)
    ensures
        text::views(files@) == module_files(name@),
{
    let chars = chars_of(name);
    let mut rel = String::new();
    for i in 0..chars.len()
        invariant
            chars@ == name@,
            rel@ == slashed(name@).take(i as int),
    {
        rel.push(
            if chars[i] == '.' {
                '/'
            } else {
                chars[i]
            },
        );
        assert(slashed(name@).take(i + 1) =~= slashed(name@).take(i as int).push(
            slashed(name@)[i as int],
        ));
    }
    assert(slashed(name@).take(chars@.len() as int) =~= slashed(name@));
    let mut files: Vec<String> = Vec::new();
    files.push(concat(rel.as_str(), ".lua"));
    let mut second = concat("lib/", rel.as_str());
    second.append(".lua");
    files.push(second);
    let mut third = concat("lib/", rel.as_str());
    third.append("/init.lua");
    files.push(third);
    assert(text::views(files@) =~= module_files(name@));
    files
}

/// What `require` does first.
#[derive(Debug)]
pub enum RequireStep<V> {
    /// The module was loaded before: this is its value.
    Use(V),
    /// The module is to be looked for in these files.
    Read(Vec<String>),
}

/// The model of what `require` does first.
#[verifier::ext_equal]
pub enum RequireView<V> {
    Use(V),
    Read(Seq<Seq<char>>),
}

impl<V> View for RequireStep<V> {
    type V = RequireView<V>;

    open spec fn view(&self) -> RequireView<V> {
        match self {
            RequireStep::Use(v) => RequireView::Use(*v),
            RequireStep::Read(files) => RequireView::Read(text::views(files@)),
        }
    }
}

/// What `require` does first, where this value of the module is kept.
pub open spec fn required_first<V>(kept: Option<V>, name: Seq<char>) -> RequireView<V> {
    match kept {
        Some(v) => RequireView::Use(v),
        None => RequireView::Read(module_files(name)),
    }
}

/// What `require` does first: a value that is kept, and not nil, is used as it is. Only
/// where there is none are files read.
pub fn require_step<V>(kept: Option<V>, name: &str) -> (step: RequireStep<V>)
    ensures
        step@ == required_first(kept, name@),
{
    match kept {
        Some(v) => RequireStep::Use(v),
        None => RequireStep::Read(require_candidates(name)),
    }
}

/// What is kept of a module in the table of loaded modules. Values that are nil are not.
pub open spec fn kept_in<V>(loaded: Map<Seq<char>, V>, name: Seq<char>) -> Option<V> {
    if loaded.dom().contains(name) {
        Some(loaded[name])
    } else {
        None
    }
}

/// What `require` gives, and the loaded modules after it. Where files are read, `ran` is what
/// the module's script gave: nothing where that was nil, or where there is no such script.
pub open spec fn required<V>(
    loaded: Map<Seq<char>, V>,
    name: Seq<char>,
    ran: Option<V>,
) -> (Option<V>, Map<Seq<char>, V>) {
    match required_first(kept_in(loaded, name), name) {
        RequireView::Use(v) => (Some(v), loaded),
        RequireView::Read(_) => match ran {
            Some(v) => (Some(v), loaded.insert(name, v)),
            None => (None, loaded),
        },
    }
}

/// A module that was loaded is not loaded again: whatever its files hold by then, they are
/// not read, and its value is the one that it had.
pub proof fn law_module_is_loaded_once<V>(
    loaded: Map<Seq<char>, V>,
    name: Seq<char>,
    ran: Option<V>,
    later: Option<V>,
)
    requires
        required(loaded, name, ran).0 is Some,
    ensures
        required_first(kept_in(required(loaded, name, ran).1, name), name) == RequireView::Use(
            required(loaded, name, ran).0->Some_0,
        ),
        required(required(loaded, name, ran).1, name, later) == required(loaded, name, ran),
{
}

/// What was found at one of the places of a module.
#[derive(Debug)]
pub struct Candidate {
    pub path: String,
    /// Whether there is such a file in the plugin directory.
    pub is_file: bool,
    /// What that file holds, where it could be read.
    pub on_disk: Option<String>,
    /// What the embedded file of that path holds.
    pub embedded: Option<String>,
}

/// A script with the name under which it runs.
#[derive(Debug)]
pub struct Script {
    pub name: String,
    pub source: String,
}

/// The source at a place: the file on disk counts before the embedded one.
pub open spec fn source_at(c: Candidate) -> Option<Seq<char>> {
    match (c.is_file, c.on_disk) {
        (true, Some(s)) => Some(s@),
        _ => wire::opt_view(c.embedded),
    }
}

/// The name of the script at a place: the whole path of a file on disk.
pub open spec fn script_name(c: Candidate, plugin_dir: Seq<char>) -> Seq<char> {
    if c.is_file {
        text::joined(plugin_dir, c.path@)
    } else {
        c.path@
    }
}

/// The first place at which there is a source.
pub open spec fn first_source(list: Seq<Candidate>, from: int) -> Option<int>
    decreases list.len() - from,
{
    if from >= list.len() {
        None
    } else if source_at(list[from]) is Some {
        Some(from)
    } else {
        first_source(list, from + 1)
    }
}

fn source_of(c: &Candidate) -> (r: Option<String>)
    ensures
        wire::opt_view(r) == source_at(*c),
{
    if c.is_file {
        match &c.on_disk {
            Some(s) => return Some(s.clone()),
            None => {},
        }
    }
    match &c.embedded {
        Some(s) => Some(s.clone()),
        None => None,
    }
}

/// The script of a module: the first place that has one counts. Without any, the module is
/// nil.
pub fn resolve_require(plugin_dir: &str, list: &[Candidate]) -> (r: Option<Script>)
    ensures
        match first_source(list@, 0) {
            None => r is None,
            Some(k) => r matches Some(s) && 0 <= k < list@.len() && source_at(list@[k]) == Some(
                s.source@,
            ) && s.name@ == script_name(list@[k], plugin_dir@),
        },
{
    let mut i: usize = 0;
    while i < list.len()
        invariant
            i <= list@.len(),
            first_source(list@, 0) == first_source(list@, i as int),
        decreases list@.len() - i,
    {
        match source_of(&list[i]) {
            Some(source) => {
                let name = if list[i].is_file {
                    join_path(plugin_dir, list[i].path.as_str())
                } else {
                    list[i].path.clone()
                };
                return Some(Script { name, source });
            },
            None => {},
        }
        i = i + 1;
    }
    None
}

/// What the start script of a plugin is.
#[derive(Debug)]
pub enum InitFile {
    /// There is none.
    Missing,
    /// It could not be read, for this reason.
    Unreadable(String),
    Source(String),
}

/// A plugin with its start script.
#[derive(Debug)]
pub struct Plugin {
    pub name: String,
    pub init: InitFile,
}

/// The names and sources of scripts.
pub open spec fn script_views(scripts: Seq<Script>) -> Seq<(Seq<char>, Seq<char>)> {
    Seq::new(scripts.len(), |i: int| (scripts[i].name@, scripts[i].source@))
}

/// The scripts of the first `n` plugins. A plugin without a readable start script is passed
/// over.
pub open spec fn plugin_scripts(plugins: Seq<Plugin>, n: int) -> Seq<(Seq<char>, Seq<char>)>
    decreases n,
{
    if n <= 0 {
        seq![]
    } else {
        let before = plugin_scripts(plugins, n - 1);
        match plugins[n - 1].init {
            InitFile::Source(s) => before.push((plugins[n - 1].name@, s@)),
            _ => before,
        }
    }
}

/// The plugins to load: those of the plugin directory where there is one, and otherwise the
/// embedded ones.
pub fn load_plugins(dir_exists: bool, on_disk: &[Plugin], embedded: &[Plugin]) -> (scripts: Vec<
    Script,
>)
    ensures
        script_views(scripts@) == if dir_exists {
            plugin_scripts(on_disk@, on_disk@.len() as int)
        } else {
            plugin_scripts(embedded@, embedded@.len() as int)
        },
{
    let plugins = if dir_exists {
        on_disk
    } else {
        embedded
    };
    let mut scripts: Vec<Script> = Vec::new();
    assert(script_views(scripts@) =~= seq![]);
    for i in 0..plugins.len()
        invariant
            script_views(scripts@) == plugin_scripts(plugins@, i as int),
    {
        match &plugins[i].init {
            InitFile::Source(s) => {
                let ghost before = script_views(scripts@);
                scripts.push(Script { name: plugins[i].name.clone(), source: s.clone() });
                assert(script_views(scripts@) =~= before.push(
                    (plugins@[i as int].name@, s@),
                ));
            },
            _ => {},
        }
    }
    scripts
}

/// Plugins see these functions under these names, and no others.
pub proof fn law_functions_that_plugins_see()
    ensures
        maki_api().len() == 35,
        maki_api().contains(
            ApiView { table: "fs"@, name: "read"@, func: ApiFn::FsRead },
        ),
        maki_api().contains(
            ApiView { table: "fs"@, name: "write"@, func: ApiFn::FsWrite },
        ),
        maki_api().contains(
            ApiView { table: "fs"@, name: "metadata"@, func: ApiFn::FsMetadata },
        ),
        maki_api().contains(
            ApiView { table: "fs"@, name: "dirname"@, func: ApiFn::FsDirname },
        ),
        maki_api().contains(
            ApiView { table: "fs"@, name: "basename"@, func: ApiFn::FsBasename },
        ),
        maki_api().contains(
            ApiView { table: "fs"@, name: "abspath"@, func: ApiFn::FsAbspath },
        ),
        maki_api().contains(
            ApiView { table: "fs"@, name: "dir"@, func: ApiFn::FsDir },
        ),
        maki_api().contains(
            ApiView { table: "fs"@, name: "mkdir"@, func: ApiFn::FsMkdir },
        ),
        maki_api().contains(
            ApiView { table: "fs"@, name: "rm"@, func: ApiFn::FsRm },
        ),
        maki_api().contains(
            ApiView { table: "fs"@, name: "glob"@, func: ApiFn::FsGlob },
        ),
        maki_api().contains(
            ApiView { table: "fs"@, name: "grep"@, func: ApiFn::FsGrep },
        ),
        maki_api().contains(
            ApiView { table: "uv"@, name: "cwd"@, func: ApiFn::UvCwd },
        ),
        maki_api().contains(
            ApiView { table: "uv"@, name: "os_homedir"@, func: ApiFn::UvOsHomedir },
        ),
        maki_api().contains(
            ApiView { table: "uv"@, name: "os_getenv"@, func: ApiFn::UvOsGetenv },
        ),
        maki_api().contains(
            ApiView { table: "log"@, name: "debug"@, func: ApiFn::LogDebug },
        ),
        maki_api().contains(
            ApiView { table: "log"@, name: "info"@, func: ApiFn::LogInfo },
        ),
        maki_api().contains(
            ApiView { table: "log"@, name: "warn"@, func: ApiFn::LogWarn },
        ),
        maki_api().contains(
            ApiView { table: "log"@, name: "error"@, func: ApiFn::LogError },
        ),
        maki_api().contains(
            ApiView { table: "ui"@, name: "buf"@, func: ApiFn::UiBuf },
        ),
        maki_api().contains(
            ApiView { table: "ui"@, name: "highlight"@, func: ApiFn::UiHighlight },
        ),
        maki_api().contains(
            ApiView { table: "ui"@, name: "theme_color"@, func: ApiFn::UiThemeColor },
        ),
        maki_api().contains(
            ApiView { table: "ui"@, name: "humantime"@, func: ApiFn::UiHumantime },
        ),
        maki_api().contains(
            ApiView { table: "api"@, name: "register_tool"@, func: ApiFn::RegisterTool },
        ),
        maki_api().contains(
            ApiView { table: "api"@, name: "register_options"@, func: ApiFn::RegisterOptions },
        ),
        maki_api().contains(
            ApiView { table: "api"@, name: "register_prompt_hint"@, func: ApiFn::Noop },
        ),
        maki_api().contains(
            ApiView { table: "api"@, name: "register_command"@, func: ApiFn::Noop },
        ),
        maki_api().contains(
            ApiView { table: "fn"@, name: "jobstart"@, func: ApiFn::Jobstart },
        ),
        maki_api().contains(
            ApiView { table: "fn"@, name: "jobwait"@, func: ApiFn::Jobwait },
        ),
        maki_api().contains(
            ApiView { table: "fn"@, name: "jobstop"@, func: ApiFn::Jobstop },
        ),
        maki_api().contains(
            ApiView { table: "treesitter"@, name: "get_parser"@, func: ApiFn::GetParser },
        ),
        maki_api().contains(
            ApiView { table: "treesitter"@, name: "get_node_text"@, func: ApiFn::GetNodeText },
        ),
        maki_api().contains(
            ApiView { table: "json"@, name: "encode"@, func: ApiFn::JsonEncode },
        ),
        maki_api().contains(
            ApiView { table: "json"@, name: "decode"@, func: ApiFn::JsonDecode },
        ),
        maki_api().contains(
            ApiView { table: ""@, name: "split"@, func: ApiFn::Split },
        ),
        maki_api().contains(
            ApiView { table: "async"@, name: "run"@, func: ApiFn::AsyncRun },
        ),
{
    assert(maki_api()[0].func == ApiFn::FsRead);
    assert(maki_api()[1].func == ApiFn::FsWrite);
    assert(maki_api()[2].func == ApiFn::FsMetadata);
    assert(maki_api()[3].func == ApiFn::FsDirname);
    assert(maki_api()[4].func == ApiFn::FsBasename);
    assert(maki_api()[5].func == ApiFn::FsAbspath);
    assert(maki_api()[6].func == ApiFn::FsDir);
    assert(maki_api()[7].func == ApiFn::FsMkdir);
    assert(maki_api()[8].func == ApiFn::FsRm);
    assert(maki_api()[9].func == ApiFn::FsGlob);
    assert(maki_api()[10].func == ApiFn::FsGrep);
    assert(maki_api()[11].func == ApiFn::UvCwd);
    assert(maki_api()[12].func == ApiFn::UvOsHomedir);
    assert(maki_api()[13].func == ApiFn::UvOsGetenv);
    assert(maki_api()[14].func == ApiFn::LogDebug);
    assert(maki_api()[15].func == ApiFn::LogInfo);
    assert(maki_api()[16].func == ApiFn::LogWarn);
    assert(maki_api()[17].func == ApiFn::LogError);
    assert(maki_api()[18].func == ApiFn::UiBuf);
    assert(maki_api()[19].func == ApiFn::UiHighlight);
    assert(maki_api()[20].func == ApiFn::UiThemeColor);
    assert(maki_api()[21].func == ApiFn::UiHumantime);
    assert(maki_api()[22].func == ApiFn::RegisterTool);
    assert(maki_api()[23].func == ApiFn::RegisterOptions);
    assert(maki_api()[24].func == ApiFn::Noop);
    assert(maki_api()[25].func == ApiFn::Noop);
    assert(maki_api()[26].func == ApiFn::Jobstart);
    assert(maki_api()[27].func == ApiFn::Jobwait);
    assert(maki_api()[28].func == ApiFn::Jobstop);
    assert(maki_api()[29].func == ApiFn::GetParser);
    assert(maki_api()[30].func == ApiFn::GetNodeText);
    assert(maki_api()[31].func == ApiFn::JsonEncode);
    assert(maki_api()[32].func == ApiFn::JsonDecode);
    assert(maki_api()[33].func == ApiFn::Split);
    assert(maki_api()[34].func == ApiFn::AsyncRun);
}

/// What a file operation gives: its value, or nil and a text that says what failed and why.
pub proof fn law_file_operations_give_a_value_or_a_reason(
    content: Result<String, String>,
    done: Result<(), String>,
    read: Vec<LuaData>,
    write: Vec<LuaData>,
    mkdir: Vec<LuaData>,
    rm: Vec<LuaData>,
)
    requires
        call_ensures(fs_read, (content,), read),
        call_ensures(fs_write, (done,), write),
        call_ensures(fs_mkdir, (done,), mkdir),
        call_ensures(fs_rm, (done,), rm),
    ensures
        content matches Ok(text) ==> read@.len() == 1 && read@[0].tree() == LuaTree::Str(
            vstd::utf8::encode_utf8(text@),
        ),
        content matches Err(e) ==> read@.len() == 2 && read@[0].tree() == LuaTree::Nil
            && read@[1].tree() == LuaTree::Str(vstd::utf8::encode_utf8("read error: "@ + e@)),
        done is Ok ==> write@.len() == 2 && write@[0].tree() == LuaTree::Bool(true)
            && write@[1].tree() == LuaTree::Nil,
        done is Ok ==> mkdir@.len() == 2 && mkdir@[0].tree() == LuaTree::Bool(true)
            && mkdir@[1].tree() == LuaTree::Nil,
        done is Ok ==> rm@.len() == 1 && rm@[0].tree() == LuaTree::Bool(true),
        done matches Err(e) ==> write@.len() == 2 && write@[0].tree() == LuaTree::Nil
            && write@[1].tree() == LuaTree::Str(vstd::utf8::encode_utf8("write error: "@ + e@)),
        done matches Err(e) ==> mkdir@.len() == 2 && mkdir@[0].tree() == LuaTree::Nil
            && mkdir@[1].tree() == LuaTree::Str(vstd::utf8::encode_utf8("mkdir error: "@ + e@)),
        done matches Err(e) ==> rm@.len() == 2 && rm@[0].tree() == LuaTree::Nil && rm@[1].tree()
            == LuaTree::Str(vstd::utf8::encode_utf8("rm error: "@ + e@)),
{
    lua::lemma_data_trees(read@);
    assert(lua::data_trees(read@).len() > 0 && lua::data_trees(read@)[0] == read@[0].tree());
    lua::lemma_data_trees(write@);
    lua::lemma_data_trees(mkdir@);
    lua::lemma_data_trees(rm@);
    assert(lua::data_trees(rm@).len() > 0 && lua::data_trees(rm@)[0] == rm@[0].tree());
}

/// A listing gives every entry of the directory, in order, as its name and whether it is a
/// directory or a file; a search gives every path that it found, in order.
pub proof fn law_listings_are_complete(
    entries: Result<Vec<(String, bool)>, String>,
    found: &[String],
    dir: Vec<LuaData>,
    glob: Vec<LuaData>,
    i: int,
)
    requires
        call_ensures(fs_dir, (entries,), dir),
        call_ensures(fs_glob, (found,), glob),
    ensures
        dir@.len() == 2 && glob@.len() == 2,
        glob@[1].tree() == LuaTree::Nil,
        glob@[0].tree() matches LuaTree::Table(list, pairs) && list.len() == found@.len()
            && pairs.len() == 0 && (0 <= i < found@.len() ==> list[i] == LuaTree::Str(
            vstd::utf8::encode_utf8(found@[i]@),
        )),
        entries matches Ok(all) ==> dir@[1].tree() == LuaTree::Nil && (dir@[0].tree() matches
            LuaTree::Table(list, pairs) && list.len() == all@.len() && pairs.len() == 0 && (0 <= i
            < all@.len() ==> (list[i] matches LuaTree::Table(parts, more) && parts.len() == 2
            && more.len() == 0 && parts[0] == LuaTree::Str(vstd::utf8::encode_utf8(all@[i].0@))
            && parts[1] == LuaTree::Str(
            vstd::utf8::encode_utf8(
                if all@[i].1 {
                    "directory"@
                } else {
                    "file"@
                },
            ),
        )))),
        entries matches Err(e) ==> dir@[0].tree() == LuaTree::Nil && dir@[1].tree() == LuaTree::Str(
            vstd::utf8::encode_utf8("dir error: "@ + e@),
        ),
{
    lua::lemma_data_trees(dir@);
    lua::lemma_data_trees(glob@);
}

/// What is known of a file, and what a job gave, are tables with these names; a job without
/// an exit code has minus one.
pub proof fn law_tables_name_their_values(
    meta: Option<FileMeta>,
    stdout: &[u8],
    stderr: &[u8],
    code: Option<i32>,
    m: LuaData,
    job: LuaData,
)
    requires
        call_ensures(fs_metadata, (meta,), m),
        call_ensures(job_result, (stdout, stderr, code), job),
    ensures
        meta is None ==> m.tree() == LuaTree::Nil,
        meta matches Some(f) ==> (m.tree() matches LuaTree::Table(list, pairs) && list.len() == 0
            && pairs.len() == 3 && pairs[0] == (
            LuaTree::Str(vstd::utf8::encode_utf8("is_dir"@)),
            LuaTree::Bool(f.is_dir),
        ) && pairs[1] == (
            LuaTree::Str(vstd::utf8::encode_utf8("is_file"@)),
            LuaTree::Bool(f.is_file),
        ) && pairs[2].0 == LuaTree::Str(vstd::utf8::encode_utf8("size"@)) && (f.size <= i64::MAX
            ==> pairs[2].1 == LuaTree::Int(f.size as int)) && (f.size > i64::MAX
            ==> (pairs[2].1 matches LuaTree::Float(n) && json::number_value(n) == Some(
            f.size as int,
        )))),
        job.tree() matches LuaTree::Table(list, pairs) && list.len() == 0 && pairs.len() == 3
            && pairs[0] == (
            LuaTree::Str(vstd::utf8::encode_utf8("stdout"@)),
            LuaTree::Str(vstd::utf8::encode_utf8(text::lossy_text(stdout@))),
        ) && pairs[1] == (
            LuaTree::Str(vstd::utf8::encode_utf8("stderr"@)),
            LuaTree::Str(vstd::utf8::encode_utf8(text::lossy_text(stderr@))),
        ) && pairs[2].0 == LuaTree::Str(vstd::utf8::encode_utf8("exit_code"@)) && (code matches Some(
            c,
        ) ==> pairs[2].1 == LuaTree::Int(c as int)) && (code is None ==> pairs[2].1 == LuaTree::Int(
            -1,
        )),
{
}

/// A search starts where it is told to, otherwise in the working directory, and finds at most
/// as many paths as it is told to, otherwise a hundred.
pub proof fn law_search_follows_its_options(
    path: Option<String>,
    cwd: Option<String>,
    limit: Option<usize>,
    r: (String, usize),
)
    requires
        call_ensures(glob_options, (path, cwd, limit), r),
    ensures
        path matches Some(dir) ==> r.0@ == dir@,
        path is None ==> (cwd matches Some(c) ==> r.0@ == c@),
        limit matches Some(n) ==> r.1 == n,
        limit is None ==> r.1 == 100,
{
}

/// A relative path is put behind the working directory and one slash; where that is not known
/// it stays.
pub proof fn law_relative_paths_start_at_the_directory(path: Seq<char>, dir: Seq<char>)
    ensures
        absolute(path, None) == path,
        (path.len() == 0 || path[0] != '/') && dir.len() > 0 && dir.last() != '/' ==> absolute(
            path,
            Some(dir),
        ) == dir.push('/') + path,
        (path.len() == 0 || path[0] != '/') && dir.len() > 0 && dir.last() == '/' ==> absolute(
            path,
            Some(dir),
        ) == dir + path,
{
    text::law_path_is_put_behind_the_directory(dir, path);
}

/// A tool is registered exactly where it has a name and a handler, and under that name.
pub proof fn law_tool_needs_name_and_handler(
    name: Option<String>,
    has_handler: bool,
    r: Result<String, String>,
)
    requires
        call_ensures(register_tool, (name, has_handler), r),
    ensures
        r is Ok <==> name is Some && has_handler,
        r matches Ok(n) ==> name == Some(n),
{
}

/// The reason why a tool could not be called comes last in the text of the failure, and the
/// tool is named where it is the one that is missing or failed.
pub proof fn law_failure_says_why(name: Seq<char>, e: String)
    ensures
        failure_text(name, CallFailure::NoTools(e)) == "no registered tools: "@ + e@,
        failure_text(name, CallFailure::Input(e)) == e@,
        failure_text(name, CallFailure::NotFound(e)) == "tool '"@ + name + "' not found: "@ + e@,
        name.is_prefix_of(failure_text(name, CallFailure::Handler(e))),
        e@.is_suffix_of(failure_text(name, CallFailure::Handler(e))),
        failure_text(name, CallFailure::Handler(e)).len() == name.len() + ": "@.len() + e@.len(),
{
    let t = failure_text(name, CallFailure::Handler(e));
    assert(t.take(name.len() as int) =~= name);
    assert(t.skip(t.len() - e@.len()) =~= e@);
}

/// A module is looked for under its name with every dot as a slash: as a file, as a file of
/// the library, and as the start script of a directory of the library, in this order.
pub proof fn law_module_is_looked_for(name: Seq<char>)
    ensures
        ({
            let rel = name.map_values(
                |c: char|
                    if c == '.' {
                        '/'
                    } else {
                        c
                    },
            );
            module_files(name) == seq![
                rel + ".lua"@,
                "lib/"@ + rel + ".lua"@,
                "lib/"@ + rel + "/init.lua"@,
            ]
        }),
        slashed(name).len() == name.len(),
        !slashed(name).contains('.'),
{
    let rel = name.map_values(
        |c: char|
            if c == '.' {
                '/'
            } else {
                c
            },
    );
    assert(slashed(name) =~= rel);
}

/// The first place with a source gives a module its script, and where no place has one there
/// is none. A file on disk that could be read counts before the embedded one of that path.
pub proof fn law_first_source_counts(list: Seq<Candidate>)
    ensures
        match first_source(list, 0) {
            Some(k) => 0 <= k < list.len() && source_at(list[k]) is Some && forall|j: int|
                0 <= j < k ==> source_at(#[trigger] list[j]) is None,
            None => forall|j: int| 0 <= j < list.len() ==> source_at(#[trigger] list[j]) is None,
        },
        forall|c: Candidate| #[trigger]
            source_at(c) == (match c.on_disk {
                Some(s) => if c.is_file {
                    Some(s@)
                } else {
                    wire::opt_view(c.embedded)
                },
                None => wire::opt_view(c.embedded),
            }),
        forall|c: Candidate, dir: Seq<char>|
            {
                &&& !c.is_file ==> #[trigger] script_name(c, dir) == c.path@
                &&& c.is_file && dir.len() > 0 && dir.last() != '/' && (c.path@.len() == 0
                    || c.path@[0] != '/') ==> script_name(c, dir) == dir + seq!['/'] + c.path@
            },
{
    lemma_first_source(list, 0);
}

proof fn lemma_first_source(list: Seq<Candidate>, from: int)
    requires
        0 <= from <= list.len(),
    ensures
        match first_source(list, from) {
            Some(k) => from <= k < list.len() && source_at(list[k]) is Some && forall|j: int|
                from <= j < k ==> source_at(#[trigger] list[j]) is None,
            None => forall|j: int| from <= j < list.len() ==> source_at(#[trigger] list[j]) is None,
        },
    decreases list.len() - from,
{
    if from < list.len() && source_at(list[from]) is None {
        lemma_first_source(list, from + 1);
    }
}

/// Every plugin with a readable start script is loaded under its name, in order: those of the
/// plugin directory where there is one, and otherwise the embedded ones.
pub proof fn law_plugins_are_loaded(
    dir_exists: bool,
    on_disk: &[Plugin],
    embedded: &[Plugin],
    scripts: Vec<Script>,
)
    requires
        call_ensures(load_plugins, (dir_exists, on_disk, embedded), scripts),
    ensures
        ({
            let all = if dir_exists {
                on_disk@
            } else {
                embedded@
            };
            let readable = all.filter(|p: Plugin| p.init is Source);
            &&& scripts@.len() == readable.len()
            &&& forall|i: int|
                0 <= i < scripts@.len() ==> (#[trigger] scripts@[i]).name@ == readable[i].name@
                    && scripts@[i].source@ == readable[i].init->Source_0@
        }),
{
    let all = if dir_exists {
        on_disk@
    } else {
        embedded@
    };
    lemma_plugin_scripts(all, all.len() as int);
    assert(all.take(all.len() as int) =~= all);
    let views = script_views(scripts@);
    assert(views.len() == scripts@.len());
    assert forall|i: int| 0 <= i < scripts@.len() implies (#[trigger] scripts@[i]).name@
        == all.filter(|p: Plugin| p.init is Source)[i].name@ && scripts@[i].source@ == all.filter(
        |p: Plugin| p.init is Source,
    )[i].init->Source_0@ by {
        assert(views[i] == (scripts@[i].name@, scripts@[i].source@));
    }
}

proof fn lemma_plugin_scripts(plugins: Seq<Plugin>, n: int)
    requires
        0 <= n <= plugins.len(),
    ensures
        ({
            let readable = plugins.take(n).filter(|p: Plugin| p.init is Source);
            let out = plugin_scripts(plugins, n);
            &&& out.len() == readable.len()
            &&& forall|i: int|
                0 <= i < out.len() ==> #[trigger] out[i] == (
                    readable[i].name@,
                    readable[i].init->Source_0@,
                )
        }),
    decreases n,
{
    reveal(Seq::filter);
    if n > 0 {
        lemma_plugin_scripts(plugins, n - 1);
        assert(plugins.take(n).drop_last() =~= plugins.take(n - 1));
        assert(plugins.take(n).last() == plugins[n - 1]);
    }
}

/// A tool that could be called gives what its handler returned, and one that could not gives
/// the reason; a tool of the parent gives its output, or its name and the reason.
pub proof fn law_tool_gives_what_its_handler_returned(
    name: &str,
    outcome: Result<Vec<LuaReturn>, CallFailure>,
    remote: Result<String, String>,
    r: Result<(String, bool), String>,
    out: Result<String, String>,
)
    requires
        call_ensures(call_tool, (name, &outcome), r),
        call_ensures(call_lua_tool, (name, remote), out),
    ensures
        outcome matches Ok(values) ==> match r {
            Ok(p) => wire::gives(handler_result(values@), (p.0@, p.1)),
            Err(e) => wire::fails(handler_result(values@), e@),
        },
        outcome matches Err(f) ==> (r matches Err(e) && e@ == failure_text(name@, f)),
        remote matches Ok(s) ==> (out matches Ok(t) && t@ == s@),
        remote matches Err(e) ==> (out matches Err(t) && t@ == name@ + ": "@ + e@),
{
}

/// A module that is kept is used, and no file is read for it; any other is looked for in its
/// files. What its script gave is kept, and nothing is kept where it gave nil.
pub proof fn law_modules_are_kept<V>(loaded: Map<Seq<char>, V>, name: Seq<char>, v: V)
    ensures
        loaded.dom().contains(name) ==> required(loaded, name, Some(v)) == (
            Some(loaded[name]),
            loaded,
        ),
        !loaded.dom().contains(name) ==> required(loaded, name, Some(v)) == (
            Some(v),
            loaded.insert(name, v),
        ),
        !loaded.dom().contains(name) ==> required(loaded, name, None) == (None::<V>, loaded),
        required_first(Some(v), name) == RequireView::Use(v),
        required_first(None::<V>, name) == RequireView::<V>::Read(module_files(name)),
{
}

/// A result that is taken from a table is an error exactly where the table's `is_error` is
/// true, whatever its output is and whatever follows it.
pub proof fn law_extracted_table_fails_only_by_its_flag(
    values: &[LuaReturn],
    output: Option<String>,
    is_error: Option<bool>,
    r: Result<(String, bool), String>,
)
    requires
        call_ensures(extract_tool_result, (values,), r),
        values@.len() > 0,
        values@[0] == LuaReturn::Table(output, is_error),
    ensures
        r matches Ok(p) && p.1 == (is_error == Some(true)) && p.0@ == match output {
            Some(s) => s@,
            None => Seq::<char>::empty(),
        },
{
    law_table_says_whether_it_failed(output, is_error, values@.skip(1));
    assert(values@ =~= seq![LuaReturn::Table(output, is_error)] + values@.skip(1));
}

/// Texts are handed to Lua as their bytes, and nothing as nil: the parts of a path, what may
/// be unknown, and the pieces of a text, in order.
pub proof fn law_texts_are_handed_to_lua(
    path: &str,
    known: Option<String>,
    source: &str,
    sep: &str,
    dir: LuaData,
    base: LuaData,
    value: LuaData,
    pieces: LuaData,
    i: int,
)
    requires
        call_ensures(fs_dirname, (path,), dir),
        call_ensures(fs_basename, (path,), base),
        call_ensures(text_or_nil, (known,), value),
        call_ensures(maki_split, (source, sep), pieces),
    ensures
        text::parent_path(path@) matches Some(t) ==> dir.tree() == LuaTree::Str(
            vstd::utf8::encode_utf8(t),
        ),
        text::parent_path(path@) is None ==> dir.tree() == LuaTree::Nil,
        text::final_component(path@) matches Some(t) ==> base.tree() == LuaTree::Str(
            vstd::utf8::encode_utf8(t),
        ),
        text::final_component(path@) is None ==> base.tree() == LuaTree::Nil,
        known matches Some(t) ==> value.tree() == LuaTree::Str(vstd::utf8::encode_utf8(t@)),
        known is None ==> value.tree() == LuaTree::Nil,
        pieces.tree() matches LuaTree::Table(list, pairs) && pairs.len() == 0 && list.len()
            == text::split_parts(source@, sep@).len() && (0 <= i < list.len() ==> list[i]
            == LuaTree::Str(vstd::utf8::encode_utf8(text::split_parts(source@, sep@)[i]))),
{
}

/// A JSON text and a Lua value are converted one into the other: encoding gives the JSON text
/// of the value, and decoding a Lua value that stands for what the text holds. Either fails
/// with the reason.
pub proof fn law_json_is_encoded_and_decoded(
    value: LuaData,
    e: Result<String, String>,
    source: &str,
    d: Result<LuaData, String>,
)
    requires
        call_ensures(json_encode, (&value,), e),
        call_ensures(json_decode, (source,), d),
    ensures
        e is Ok <==> lua::json_of(value.tree()) is Ok,
        e matches Ok(s) ==> (lua::json_of(value.tree()) matches Ok(t) && s@ == json::json_text(t)),
        e matches Err(x) ==> wire::fails(lua::json_of(value.tree()), x@),
        d is Ok <==> json::parsed_json_text(source@) is Ok,
        d matches Ok(l) ==> (json::parsed_json_text(source@) matches Ok(t) && lua::stands_for(
            l.tree(),
            t,
        )),
        d matches Err(x) ==> (json::parsed_json_text(source@) matches Err(r) && x@
            == "json decode: "@ + r),
{
}

/// Seconds are shown as their number and `s`, and searching in files is left to the parent.
pub proof fn law_small_functions(secs: u64, s: String, grep: Vec<LuaData>)
    requires
        call_ensures(ui_humantime, (secs,), s),
        call_ensures(fs_grep, (), grep),
    ensures
        s@ == text::decimal(secs as nat).push('s'),
        grep@.len() == 2 && grep@[0].tree() == LuaTree::Nil && grep@[1].tree() == LuaTree::Str(
            vstd::utf8::encode_utf8("grep not available in sandbox child"@),
        ),
{
    reveal_strlit("s");
    assert(text::decimal(secs as nat) + "s"@ =~= text::decimal(secs as nat).push('s'));
    lua::lemma_data_trees(grep@);
    assert(lua::data_trees(grep@)[0] == grep@[0].tree());
    assert(lua::data_trees(grep@)[1] == grep@[1].tree());
}

} // verus!
