use maki_sandbox::json::Json;
use maki_sandbox::lua::{json_to_lua, lua_to_json, LuaData};
use maki_sandbox::lua_runtime::{
    call_lua_tool, call_tool, create_maki_api, extract_tool_result, fs_abspath, fs_basename, fs_dir, fs_dirname,
    fs_glob, fs_grep, fs_metadata, fs_mkdir, fs_read, fs_rm, fs_write, fs_write_parent,
    glob_options, job_result, json_decode, json_encode, load_plugins, maki_split, register_tool,
    require_candidates, require_step, resolve_require, RequireStep, text_or_nil, ui_humantime, ApiFn, CallFailure, Candidate,
    FileMeta, InitFile, LuaReturn, Plugin,
};
use maki_sandbox::tools::build_tool_input;
use mlua::{Function, Lua, MultiValue, Table, Value};

fn lua_str(s: &str) -> LuaData {
    LuaData::Str(s.as_bytes().to_vec())
}

fn shown(d: &LuaData) -> String {
    json_encode(d).unwrap()
}

fn all_shown(values: &[LuaData]) -> Vec<String> {
    values.iter().map(|d| shown(d)).collect()
}

// ── A small runtime around the library ──

fn give(lua: &Lua, d: &LuaData) -> mlua::Result<Value> {
    Ok(match d {
        LuaData::Nil | LuaData::NonFinite | LuaData::Other => Value::Nil,
        LuaData::Bool(b) => Value::Boolean(*b),
        LuaData::Int(i) => Value::Integer(*i),
        LuaData::Float(n) => Value::Number(n.as_f64().unwrap_or(0.0)),
        LuaData::Str(b) => Value::String(lua.create_string(b)?),
        LuaData::Table(list, pairs) => {
            let t = lua.create_table()?;
            for (i, v) in list.iter().enumerate() {
                t.set(i + 1, give(lua, v)?)?;
            }
            for (k, v) in pairs {
                t.set(give(lua, k)?, give(lua, v)?)?;
            }
            Value::Table(t)
        }
    })
}

fn give_all(lua: &Lua, values: &[LuaData]) -> mlua::Result<MultiValue> {
    let mut out = Vec::new();
    for v in values {
        out.push(give(lua, v)?);
    }
    Ok(MultiValue::from_vec(out))
}

fn take(v: Value) -> LuaReturn {
    match v {
        Value::Nil => LuaReturn::Nil,
        Value::String(s) => LuaReturn::Str(s.as_bytes().to_vec()),
        Value::Table(t) => LuaReturn::Table(t.get("llm_output").ok(), t.get("is_error").ok()),
        _ => LuaReturn::Other,
    }
}

fn runtime(plugins: &[Plugin]) -> Lua {
    let lua = Lua::new();
    let maki = lua.create_table().unwrap();
    let api = lua.create_table().unwrap();
    api.set(
        "register_tool",
        lua.create_function(|lua, spec: Table| {
            let handler: Option<Function> = spec.get("handler").ok();
            let name = register_tool(spec.get("name").ok(), handler.is_some())
                .map_err(|e| mlua::Error::runtime(e))?;
            let tools: Table = lua.globals().get("_registered_tools")?;
            tools.set(name, handler)
        })
        .unwrap(),
    )
    .unwrap();
    maki.set("api", api).unwrap();
    let fs = lua.create_table().unwrap();
    fs.set(
        "read",
        lua.create_function(|lua, path: String| {
            let found = if path == "/test.txt" {
                Ok("hello sandbox".to_string())
            } else {
                Err("no such file".to_string())
            };
            give_all(lua, &fs_read(found))
        })
        .unwrap(),
    )
    .unwrap();
    maki.set("fs", fs).unwrap();
    maki.set(
        "split",
        lua.create_function(|lua, (text, sep): (String, String)| {
            give(lua, &maki_split(&text, &sep))
        })
        .unwrap(),
    )
    .unwrap();
    lua.globals().set("maki", maki).unwrap();
    lua.globals()
        .set("_registered_tools", lua.create_table().unwrap())
        .unwrap();
    for script in load_plugins(true, plugins, &[]) {
        lua.load(&script.source).set_name(&script.name).exec().unwrap();
    }
    lua
}

fn run(lua: &Lua, name: &str, kwargs: Vec<(String, Json)>) -> Result<(String, bool), String> {
    let tools: Table = lua.globals().get("_registered_tools").unwrap();
    let handler: Result<Function, mlua::Error> = tools.get(name);
    let outcome = match handler {
        Err(e) => Err(CallFailure::NotFound(e.to_string())),
        Ok(f) => {
            let input = json_to_lua(&build_tool_input(&[], &kwargs));
            match f.call::<MultiValue>(give(lua, &input).unwrap()) {
                Ok(values) => Ok(values.into_iter().map(take).collect()),
                Err(e) => Err(CallFailure::Handler(e.to_string())),
            }
        }
    };
    call_tool(name, &outcome)
}

fn plugin(name: &str, source: &str) -> Plugin {
    Plugin {
        name: name.into(),
        init: InitFile::Source(source.into()),
    }
}

#[test]
fn empty_plugin_dir_loads_cleanly() {
    let lua = runtime(&[]);
    // No tools registered
    let err = run(&lua, "read", vec![]).unwrap_err();
    assert!(err.contains("not found"));
}

#[test]
fn register_tool_and_call() {
    let lua = runtime(&[plugin(
        "echo",
        r#"
            maki.api.register_tool({
                name = "echo",
                description = "echo tool",
                schema = { type = "object", properties = {} },
                handler = function(input)
                    return input.text or "nothing"
                end,
            })
            "#,
    )]);
    let (output, is_error) = run(
        &lua,
        "echo",
        vec![("text".into(), Json::Str("hello".into()))],
    )
    .unwrap();
    assert_eq!(output, "hello");
    assert!(!is_error);
}

#[test]
fn handler_returning_table() {
    let lua = runtime(&[plugin(
        "t",
        r#"
            maki.api.register_tool({
                name = "t",
                description = "test",
                schema = { type = "object", properties = {} },
                handler = function(input)
                    return { llm_output = "ok", is_error = false }
                end,
            })
            "#,
    )]);
    let (output, is_error) = run(&lua, "t", vec![]).unwrap();
    assert_eq!(output, "ok");
    assert!(!is_error);
}

#[test]
fn handler_returning_error() {
    let lua = runtime(&[plugin(
        "e",
        r#"
            maki.api.register_tool({
                name = "e",
                description = "error tool",
                schema = { type = "object", properties = {} },
                handler = function(input)
                    return nil, "something went wrong"
                end,
            })
            "#,
    )]);
    let (output, is_error) = run(&lua, "e", vec![]).unwrap();
    assert_eq!(output, "something went wrong");
    assert!(is_error);
}

#[test]
fn fs_read_works_in_sandbox() {
    let lua = runtime(&[plugin(
        "reader",
        r#"
            maki.api.register_tool({
                name = "reader",
                description = "read test",
                schema = { type = "object", properties = {} },
                handler = function(input)
                    local content, err = maki.fs.read(input.path)
                    if not content then
                        return { llm_output = err, is_error = true }
                    end
                    return content
                end,
            })
            "#,
    )]);
    let (output, _) = run(
        &lua,
        "reader",
        vec![("path".into(), Json::Str("/test.txt".into()))],
    )
    .unwrap();
    assert_eq!(output, "hello sandbox");
    let (output, is_error) = run(
        &lua,
        "reader",
        vec![("path".into(), Json::Str("/none".into()))],
    )
    .unwrap();
    assert_eq!(output, "read error: no such file");
    assert!(is_error);
}

#[test]
fn maki_split_works() {
    let lua = runtime(&[plugin(
        "spliter",
        r#"
            maki.api.register_tool({
                name = "spliter",
                description = "split test",
                schema = { type = "object", properties = {} },
                handler = function(input)
                    local parts = maki.split("a,b,c", ",")
                    return table.concat(parts, "|")
                end,
            })
            "#,
    )]);
    let (output, _) = run(&lua, "spliter", vec![]).unwrap();
    assert_eq!(output, "a|b|c");
}

#[test]
fn invalid_text_is_reported_as_the_runtime_does() {
    let lua = Lua::new();
    let s = lua.create_string(&[0xffu8, 0xfe]).unwrap();
    let theirs = s.to_str().unwrap_err().to_string();
    let ours = extract_tool_result(&[LuaReturn::Str(vec![0xff, 0xfe])]).unwrap_err();
    assert_eq!(ours, theirs);
}

#[test]
fn handler_results() {
    let text = |v: Vec<LuaReturn>| extract_tool_result(&v).unwrap();
    assert_eq!(text(vec![LuaReturn::Str(b"a".to_vec())]), ("a".into(), false));
    assert_eq!(
        text(vec![LuaReturn::Table(None, None)]),
        ("".into(), false)
    );
    assert_eq!(
        text(vec![LuaReturn::Table(Some("x".into()), Some(true))]),
        ("x".into(), true)
    );
    assert_eq!(
        text(vec![LuaReturn::Nil]),
        ("tool returned nil".into(), true)
    );
    assert_eq!(
        text(vec![LuaReturn::Nil, LuaReturn::Other]),
        ("tool returned nil".into(), true)
    );
    assert_eq!(
        text(vec![LuaReturn::Other]),
        ("tool returned unexpected type".into(), true)
    );
    assert_eq!(
        text(vec![]),
        ("tool returned unexpected type".into(), true)
    );
}

#[test]
fn call_failures() {
    let text = |f| call_tool("n", &Err(f)).unwrap_err();
    assert_eq!(
        text(CallFailure::NoTools("e".into())),
        "no registered tools: e"
    );
    assert_eq!(
        text(CallFailure::NotFound("e".into())),
        "tool 'n' not found: e"
    );
    assert_eq!(text(CallFailure::Input("e".into())), "e");
    assert_eq!(text(CallFailure::Handler("e".into())), "n: e");
    assert_eq!(
        register_tool(None, true),
        Err("register_tool: missing 'name'".into())
    );
    assert_eq!(
        register_tool(Some("x".into()), false),
        Err("register_tool: missing 'handler'".into())
    );
    assert_eq!(register_tool(Some("x".into()), true), Ok("x".into()));
}

#[test]
fn api_surface() {
    let api = create_maki_api();
    assert_eq!(api.len(), 35);
    assert_eq!((api[0].table, api[0].name), ("fs", "read"));
    assert!(api
        .iter()
        .any(|e| e.table == "json" && e.name == "decode" && e.func == ApiFn::JsonDecode));
    assert!(api
        .iter()
        .any(|e| e.table.is_empty() && e.name == "split" && e.func == ApiFn::Split));
    assert!(api.iter().all(|e| e.table != "agent" && e.name != "http"));
}

#[test]
fn values_given_to_plugins() {
    assert_eq!(
        all_shown(&fs_read(Err("e".into()))),
        vec!["null", "\"read error: e\""]
    );
    assert_eq!(all_shown(&fs_write(Ok(()))), vec!["true", "null"]);
    assert_eq!(
        all_shown(&fs_write(Err("e".into()))),
        vec!["null", "\"write error: e\""]
    );
    assert_eq!(all_shown(&fs_mkdir(Ok(()))), vec!["true", "null"]);
    assert_eq!(
        all_shown(&fs_mkdir(Err("e".into()))),
        vec!["null", "\"mkdir error: e\""]
    );
    assert_eq!(all_shown(&fs_rm(Ok(()))), vec!["true"]);
    assert_eq!(
        all_shown(&fs_rm(Err("e".into()))),
        vec!["null", "\"rm error: e\""]
    );
    assert_eq!(
        all_shown(&fs_dir(Ok(vec![("a".into(), true), ("b".into(), false)]))),
        vec!["[[\"a\",\"directory\"],[\"b\",\"file\"]]", "null"]
    );
    assert_eq!(
        all_shown(&fs_dir(Err("e".into()))),
        vec!["null", "\"dir error: e\""]
    );
    assert_eq!(
        all_shown(&fs_glob(&["/x".into(), "/y".into()])),
        vec!["[\"/x\",\"/y\"]", "null"]
    );
    assert_eq!(
        all_shown(&fs_grep()),
        vec!["null", "\"grep not available in sandbox child\""]
    );
    assert_eq!(
        shown(&fs_metadata(Some(FileMeta {
            is_dir: false,
            is_file: true,
            size: 12
        }))),
        "{\"is_dir\":false,\"is_file\":true,\"size\":12}"
    );
    assert_eq!(shown(&fs_metadata(None)), "null");
    assert_eq!(
        shown(&job_result(b"o", &[255], None)),
        "{\"stdout\":\"o\",\"stderr\":\"\u{fffd}\",\"exit_code\":-1}"
    );
    assert_eq!(
        shown(&job_result(b"", b"", Some(3))),
        "{\"stdout\":\"\",\"stderr\":\"\",\"exit_code\":3}"
    );
    assert_eq!(shown(&text_or_nil(Some("t".into()))), "\"t\"");
    assert_eq!(shown(&text_or_nil(None)), "null");
    assert_eq!(ui_humantime(90), "90s");
}

#[test]
fn paths_given_to_plugins() {
    assert_eq!(shown(&fs_dirname("/a/b.txt")), "\"/a\"");
    assert_eq!(shown(&fs_dirname("/")), "null");
    assert_eq!(shown(&fs_basename("/a/b.txt")), "\"b.txt\"");
    assert_eq!(shown(&fs_basename("/a/..")), "null");
    assert_eq!(fs_write_parent("/a/b/c"), Some("/a/b".into()));
    assert_eq!(shown(&fs_abspath("/x", Some("/w".into()))), "\"/x\"");
    assert_eq!(shown(&fs_abspath("x", Some("/w".into()))), "\"/w/x\"");
    assert_eq!(shown(&fs_abspath("x", None)), "\"x\"");
    assert_eq!(glob_options(None, None, None), ("".to_string(), 100));
    assert_eq!(
        glob_options(Some("/p".into()), Some("/c".into()), Some(5)),
        ("/p".to_string(), 5)
    );
    assert_eq!(
        glob_options(None, Some("/c".into()), None),
        ("/c".to_string(), 100)
    );
}

#[test]
fn json_through_lua() {
    let source = "{\"a\":[1,-2,true,\"ü\"],\"b\":{}}";
    let value = Json::parse_text(source).unwrap();
    let back = lua_to_json(&json_to_lua(&value)).unwrap();
    assert_eq!(back.to_text(), source);
    // An empty array has no form of its own, and neither has a large integer.
    let odd = Json::parse_text("[[],18446744073709551615]").unwrap();
    match json_to_lua(&odd) {
        LuaData::Table(list, _) => {
            assert!(matches!(&list[0], LuaData::Table(l, p) if l.is_empty() && p.is_empty()));
            assert!(matches!(&list[1], LuaData::Float(_)));
        }
        other => panic!("unexpected {other:?}"),
    }
    assert_eq!(lua_to_json(&json_to_lua(&odd)).unwrap().to_text(), "[{},18446744073709551615]");
}

#[test]
fn json_of_lua_values() {
    assert_eq!(shown(&LuaData::NonFinite), "null");
    assert_eq!(shown(&LuaData::Other), "null");
    let half = Json::parse_text("0.5").unwrap();
    assert_eq!(shown(&json_to_lua(&half)), "0.5");
    // A table with a length is an array, whatever else it holds.
    let mixed = LuaData::Table(
        vec![LuaData::Int(1)],
        vec![(lua_str("k"), LuaData::Int(2))],
    );
    assert_eq!(shown(&mixed), "[1]");
    let keys = LuaData::Table(
        vec![],
        vec![
            (lua_str("k"), LuaData::Int(2)),
            (LuaData::Int(9), LuaData::Str(vec![255])),
            (lua_str("l"), LuaData::Nil),
        ],
    );
    assert_eq!(shown(&keys), "{\"k\":2,\"l\":null}");
    let bad = LuaData::Table(vec![LuaData::Str(vec![255]), LuaData::Str(vec![0xc3])], vec![]);
    assert_eq!(
        json_encode(&bad).unwrap_err(),
        "error converting Lua string to &str (invalid utf-8 sequence of 1 bytes from index 0)"
    );
    assert!(json_decode("{").unwrap_err().starts_with("json decode: "));
    assert_eq!(shown(&json_decode("[null,2]").unwrap()), "[null,2]");
}

fn candidate(path: &str, disk: Option<&str>, embedded: Option<&str>) -> Candidate {
    Candidate {
        path: path.into(),
        is_file: disk.is_some(),
        on_disk: disk.map(|s| s.into()),
        embedded: embedded.map(|s| s.into()),
    }
}

#[test]
fn modules_are_found() {
    assert_eq!(
        require_candidates("a.b"),
        vec!["a/b.lua", "lib/a/b.lua", "lib/a/b/init.lua"]
    );
    let s = resolve_require(
        "/plugins",
        &[
            candidate("a.lua", None, None),
            candidate("lib/a.lua", Some("disk"), Some("embedded")),
            candidate("lib/a/init.lua", Some("late"), None),
        ],
    )
    .unwrap();
    assert_eq!(s.source, "disk");
    assert_eq!(s.name, "/plugins/lib/a.lua");
    let s = resolve_require("/plugins", &[candidate("a.lua", None, Some("embedded"))]).unwrap();
    assert_eq!(s.source, "embedded");
    assert_eq!(s.name, "a.lua");
    let unreadable = Candidate {
        path: "a.lua".into(),
        is_file: true,
        on_disk: None,
        embedded: Some("embedded".into()),
    };
    let s = resolve_require("/plugins", &[unreadable]).unwrap();
    assert_eq!(s.source, "embedded");
    assert_eq!(s.name, "/plugins/a.lua");
    assert!(resolve_require("/plugins", &[]).is_none());
}

#[test]
fn plugins_are_chosen() {
    let disk = [
        plugin("a", "1"),
        Plugin {
            name: "b".into(),
            init: InitFile::Missing,
        },
        Plugin {
            name: "c".into(),
            init: InitFile::Unreadable("e".into()),
        },
        plugin("d", "2"),
    ];
    let embedded = [plugin("x", "3")];
    let names = |v: Vec<maki_sandbox::lua_runtime::Script>| -> Vec<String> {
        v.into_iter().map(|s| s.name).collect()
    };
    assert_eq!(names(load_plugins(true, &disk, &embedded)), vec!["a", "d"]);
    assert_eq!(names(load_plugins(false, &disk, &embedded)), vec!["x"]);
}

#[test]
fn parent_tool_errors_carry_the_name() {
    assert_eq!(call_lua_tool("task", Ok("done".into())), Ok("done".into()));
    assert_eq!(
        call_lua_tool("task", Err("boom".into())),
        Err("task: boom".into())
    );
}

#[test]
fn loaded_modules_are_not_read_again() {
    assert!(matches!(require_step(Some(7), "a.b"), RequireStep::Use(7)));
    match require_step(None::<i32>, "a.b") {
        RequireStep::Read(files) => assert_eq!(
            files,
            vec!["a/b.lua", "lib/a/b.lua", "lib/a/b/init.lua"]
        ),
        other => panic!("unexpected {other:?}"),
    }
}
