//! The layout of the sandbox: what is mounted where, and which environment passes through.

use vstd::prelude::*;

use crate::text;
use crate::text::same;

verus! {

/// What the sandbox is made of. Each pair is a host path and its name in the sandbox.
#[derive(Debug)]
pub struct NamespaceConfig {
    /// Names of host variables that pass through, besides those that always do.
    pub allowed_env: Vec<String>,
    pub workspace_dir: String,
    pub workspace_name: String,
    pub home_mounts: Vec<(String, String)>,
    pub readonly_mounts: Vec<(String, String)>,
    pub path_dirs: Vec<String>,
    pub extra_workspace_dirs: Vec<(String, String)>,
    pub symlinks: Vec<(String, String)>,
}

/// The model of a configuration.
#[verifier::ext_equal]
pub struct ConfigView {
    pub allowed_env: Seq<Seq<char>>,
    pub workspace_dir: Seq<char>,
    pub workspace_name: Seq<char>,
    pub home_mounts: Seq<(Seq<char>, Seq<char>)>,
    pub readonly_mounts: Seq<(Seq<char>, Seq<char>)>,
    pub path_dirs: Seq<Seq<char>>,
    pub extra_workspace_dirs: Seq<(Seq<char>, Seq<char>)>,
    pub symlinks: Seq<(Seq<char>, Seq<char>)>,
}

impl View for NamespaceConfig {
    type V = ConfigView;

    open spec fn view(&self) -> ConfigView {
        ConfigView {
            allowed_env: text::views(self.allowed_env@),
            workspace_dir: self.workspace_dir@,
            workspace_name: self.workspace_name@,
            home_mounts: pair_views(self.home_mounts@),
            readonly_mounts: pair_views(self.readonly_mounts@),
            path_dirs: text::views(self.path_dirs@),
            extra_workspace_dirs: pair_views(self.extra_workspace_dirs@),
            symlinks: pair_views(self.symlinks@),
        }
    }
}

/// Copies a list of pairs.
pub fn copy_pairs(pairs: &[(String, String)]) -> (out: Vec<(String, String)>)
    ensures
        pair_views(out@) == pair_views(pairs@),
{
    let mut out: Vec<(String, String)> = Vec::new();
    for i in 0..pairs.len()
        invariant
            out@.len() == i,
            forall|k: int|
                0 <= k < i ==> (#[trigger] out@[k]).0@ == pairs@[k].0@ && out@[k].1@
                    == pairs@[k].1@,
    {
        out.push((pairs[i].0.clone(), pairs[i].1.clone()));
    }
    assert(pair_views(out@) =~= pair_views(pairs@));
    out
}

/// One variable of the sandbox's environment.
#[derive(Debug)]
pub struct EnvEntry {
    pub key: String,
    pub value: String,
    pub description: String,
}

/// The model of a variable.
pub struct EnvView {
    pub key: Seq<char>,
    pub value: Seq<char>,
    pub description: Seq<char>,
}

impl View for EnvEntry {
    type V = EnvView;

    open spec fn view(&self) -> EnvView {
        EnvView { key: self.key@, value: self.value@, description: self.description@ }
    }
}

/// The models of a list of variables.
pub open spec fn env_views(entries: Seq<EnvEntry>) -> Seq<EnvView> {
    Seq::new(entries.len(), |i: int| entries[i]@)
}

/// The characters of a list of pairs.
pub open spec fn pair_views(pairs: Seq<(String, String)>) -> Seq<(Seq<char>, Seq<char>)> {
    Seq::new(pairs.len(), |i: int| (pairs[i].0@, pairs[i].1@))
}

/// A variable without a description.
pub open spec fn env_view(key: Seq<char>, value: Seq<char>) -> EnvView {
    EnvView { key, value, description: Seq::empty() }
}

/// The search path: the system directories, then those of the profiles.
pub open spec fn search_path(dirs: Seq<Seq<char>>) -> Seq<char>
    decreases dirs.len(),
{
    if dirs.len() == 0 {
        "/usr/bin:/usr/local/bin"@
    } else {
        search_path(dirs.drop_last()) + ":"@ + dirs.last()
    }
}

/// Whether a variable is set by the sandbox itself.
pub open spec fn fixed_name(name: Seq<char>) -> bool {
    name == "PATH"@ || name == "HOME"@ || name == "USER"@
}

/// Whether a host variable passes through.
pub open spec fn passes(name: Seq<char>, allowed: Seq<Seq<char>>) -> bool {
    !fixed_name(name) && (name == "LANG"@ || name == "TERM"@ || name == "TMPDIR"@ || name
        == "RUST_LOG"@ || "LC_"@.is_prefix_of(name) || allowed.contains(name))
}

/// The host variables that pass through, in their order.
pub open spec fn passed(
    host: Seq<(Seq<char>, Seq<char>)>,
    allowed: Seq<Seq<char>>,
) -> Seq<EnvView>
    decreases host.len(),
{
    if host.len() == 0 {
        seq![]
    } else {
        let before = passed(host.drop_last(), allowed);
        if passes(host.last().0, allowed) {
            before.push(env_view(host.last().0, host.last().1))
        } else {
            before
        }
    }
}

/// The environment of the sandbox: the search path, the home directory and the user, then
/// the host variables that pass through.
pub open spec fn sandbox_env(
    dirs: Seq<Seq<char>>,
    allowed: Seq<Seq<char>>,
    host: Seq<(Seq<char>, Seq<char>)>,
) -> Seq<EnvView> {
    seq![
        env_view("PATH"@, search_path(dirs)),
        env_view("HOME"@, "/home/maki"@),
        env_view("USER"@, "maki"@),
    ] + passed(host, allowed)
}

/// The environment holds the search path, the home directory and the user, and then those
/// host variables, in their order and with their values, that have a well-known name or an
/// allowed one and that the sandbox does not set itself.
pub proof fn law_environment_is_rebuilt(
    dirs: Seq<Seq<char>>,
    allowed: Seq<Seq<char>>,
    host: Seq<(Seq<char>, Seq<char>)>,
)
    ensures
        ({
            let env = sandbox_env(dirs, allowed, host);
            let kept = host.filter(
                |v: (Seq<char>, Seq<char>)|
                    v.0 != "PATH"@ && v.0 != "HOME"@ && v.0 != "USER"@ && (v.0 == "LANG"@ || v.0
                        == "TERM"@ || v.0 == "TMPDIR"@ || v.0 == "RUST_LOG"@
                        || "LC_"@.is_prefix_of(v.0) || allowed.contains(v.0)),
            );
            &&& env.len() == 3 + kept.len()
            &&& env[0].key == "PATH"@
            &&& env[1].key == "HOME"@ && env[1].value == "/home/maki"@
            &&& env[2].key == "USER"@ && env[2].value == "maki"@
            &&& forall|i: int|
                0 <= i < kept.len() ==> (#[trigger] env[i + 3]).key == kept[i].0 && env[i + 3].value
                    == kept[i].1
            &&& forall|i: int| 0 <= i < env.len() ==> (#[trigger] env[i]).description.len() == 0
        }),
    decreases host.len(),
{
    reveal(Seq::filter);
    if host.len() > 0 {
        law_environment_is_rebuilt(dirs, allowed, host.drop_last());
        let env = sandbox_env(dirs, allowed, host);
        let before = sandbox_env(dirs, allowed, host.drop_last());
        assert(forall|i: int| 0 <= i < before.len() ==> env[i] == before[i]);
    }
}

/// The value of `PATH` is the two system directories and then, each behind a colon, every
/// directory of the profiles, in order.
pub proof fn law_path_is_complete(
    dirs: Seq<Seq<char>>,
    allowed: Seq<Seq<char>>,
    host: Seq<(Seq<char>, Seq<char>)>,
)
    ensures
        sandbox_env(dirs, allowed, host)[0].value == "/usr/bin:/usr/local/bin"@ + dirs.map_values(
            |dir: Seq<char>| ":"@ + dir,
        ).flatten(),
{
    lemma_path_text(dirs);
}

/// Splitting the value of `PATH` at the colons gives the two system directories and then
/// every directory of the profiles, in order, where these hold no colon.
pub proof fn law_path_is_searched_in_order(
    dirs: Seq<Seq<char>>,
    allowed: Seq<Seq<char>>,
    host: Seq<(Seq<char>, Seq<char>)>,
)
    requires
        forall|i: int| 0 <= i < dirs.len() ==> !(#[trigger] dirs[i]).contains(':'),
    ensures
        text::split_at_sep(sandbox_env(dirs, allowed, host)[0].value, seq![':']) == seq![
            "/usr/bin"@,
            "/usr/local/bin"@,
        ] + dirs,
{
    lemma_path_pieces(dirs);
}

/// Every directory of the profiles stands on the search path, between colons or at the end.
pub proof fn law_each_directory_is_searched(
    dirs: Seq<Seq<char>>,
    allowed: Seq<Seq<char>>,
    host: Seq<(Seq<char>, Seq<char>)>,
    i: int,
)
    requires
        0 <= i < dirs.len(),
    ensures
        exists|before: Seq<char>, after: Seq<char>|
            sandbox_env(dirs, allowed, host)[0].value == #[trigger] (before + seq![':'] + dirs[i]
                + after) && (after.len() == 0 || after[0] == ':'),
    decreases dirs.len(),
{
    reveal_strlit(":");
    assert(":"@ =~= seq![':']);
    let path = sandbox_env(dirs, allowed, host)[0].value;
    let before = search_path(dirs.drop_last());
    let last = seq![':'] + dirs.last();
    if i == dirs.len() - 1 {
        assert(path =~= before + seq![':'] + dirs[i] + Seq::<char>::empty());
    } else {
        let fewer = dirs.drop_last();
        law_each_directory_is_searched(fewer, allowed, host, i);
        assert(fewer[i] == dirs[i]);
        let (b, a) = choose|b: Seq<char>, a: Seq<char>|
            sandbox_env(fewer, allowed, host)[0].value == #[trigger] (b + seq![':'] + fewer[i]
                + a) && (a.len() == 0 || a[0] == ':');
        assert(path =~= b + seq![':'] + dirs[i] + (a + last));
        if a.len() == 0 {
            assert((a + last)[0] == ':');
        } else {
            assert((a + last)[0] == a[0]);
        }
    }
}

proof fn lemma_path_text(dirs: Seq<Seq<char>>)
    ensures
        search_path(dirs) == "/usr/bin:/usr/local/bin"@ + dirs.map_values(
            |dir: Seq<char>| ":"@ + dir,
        ).flatten(),
    decreases dirs.len(),
{
    let f = |dir: Seq<char>| ":"@ + dir;
    let mapped = dirs.map_values(f);
    if dirs.len() == 0 {
        assert(mapped =~= Seq::<Seq<char>>::empty());
        assert(search_path(dirs) =~= "/usr/bin:/usr/local/bin"@ + Seq::<char>::empty());
    } else {
        let init = dirs.drop_last();
        lemma_path_text(init);
        assert(mapped =~= init.map_values(f).push(":"@ + dirs.last()));
        init.map_values(f).lemma_flatten_push(":"@ + dirs.last());
        assert(search_path(dirs) =~= "/usr/bin:/usr/local/bin"@ + mapped.flatten());
    }
}

proof fn lemma_path_pieces(dirs: Seq<Seq<char>>)
    requires
        forall|i: int| 0 <= i < dirs.len() ==> !(#[trigger] dirs[i]).contains(':'),
    ensures
        text::split_at_sep(search_path(dirs), seq![':']) == seq!["/usr/bin"@, "/usr/local/bin"@]
            + dirs,
    decreases dirs.len(),
{
    let sep = seq![':'];
    if dirs.len() == 0 {
        reveal_strlit("/usr/bin:/usr/local/bin");
        reveal_strlit("/usr/bin");
        reveal_strlit("/usr/local/bin");
        let first = "/usr/bin"@;
        let second = "/usr/local/bin"@;
        assert("/usr/bin:/usr/local/bin"@ =~= first + sep + second);
        text::lemma_find_from(first, sep, 0);
        if text::find_from(first, sep, 0) is Some {
            let k = text::find_from(first, sep, 0)->Some_0;
            assert(first.subrange(k, k + 1)[0] == first[k]);
        }
        text::law_last_piece(first, ':', second);
        assert(text::split_at_sep(first, sep) =~= seq![first]);
        assert(seq![first].push(second) =~= seq![first, second] + dirs);
    } else {
        let init = dirs.drop_last();
        assert forall|i: int| 0 <= i < init.len() implies !(#[trigger] init[i]).contains(':') by {
            assert(init[i] == dirs[i]);
        }
        lemma_path_pieces(init);
        reveal_strlit(":");
        assert(":"@ =~= sep);
        assert(dirs.last() == dirs[dirs.len() - 1]);
        text::law_last_piece(search_path(init), ':', dirs.last());
        assert((seq!["/usr/bin"@, "/usr/local/bin"@] + init).push(dirs.last()) =~= seq![
            "/usr/bin"@,
            "/usr/local/bin"@,
        ] + dirs);
    }
}

/// Every variable of the sandbox is one that it sets itself or one that passes through,
/// with the host's value; nothing else of the host is there.
pub proof fn law_nothing_else_passes(
    dirs: Seq<Seq<char>>,
    allowed: Seq<Seq<char>>,
    host: Seq<(Seq<char>, Seq<char>)>,
    i: int,
)
    requires
        0 <= i < sandbox_env(dirs, allowed, host).len(),
    ensures
        ({
            let e = sandbox_env(dirs, allowed, host)[i];
            if fixed_name(e.key) {
                i < 3
            } else {
                passes(e.key, allowed) && host.contains((e.key, e.value))
            }
        }),
{
    let env = sandbox_env(dirs, allowed, host);
    if i >= 3 {
        lemma_passed(host, allowed, i - 3);
        assert(env[i] == passed(host, allowed)[i - 3]);
    }
}

/// Every host variable that passes through is in the sandbox with its value.
pub proof fn law_allowed_variables_pass(
    dirs: Seq<Seq<char>>,
    allowed: Seq<Seq<char>>,
    host: Seq<(Seq<char>, Seq<char>)>,
    k: int,
)
    requires
        0 <= k < host.len(),
        passes(host[k].0, allowed),
    ensures
        sandbox_env(dirs, allowed, host).contains(env_view(host[k].0, host[k].1)),
{
    let j = lemma_passed_has(host, allowed, k);
    let env = sandbox_env(dirs, allowed, host);
    assert(env[j + 3] == passed(host, allowed)[j]);
}

proof fn lemma_passed(host: Seq<(Seq<char>, Seq<char>)>, allowed: Seq<Seq<char>>, i: int)
    requires
        0 <= i < passed(host, allowed).len(),
    ensures
        ({
            let e = passed(host, allowed)[i];
            passes(e.key, allowed) && host.contains((e.key, e.value))
        }),
    decreases host.len(),
{
    let init = host.drop_last();
    let before = passed(init, allowed);
    if i < before.len() {
        lemma_passed(init, allowed, i);
        let e = before[i];
        let k = choose|k: int| 0 <= k < init.len() && init[k] == (e.key, e.value);
        assert(host[k] == init[k]);
    } else {
        assert(host[host.len() - 1] == host.last());
    }
}

proof fn lemma_passed_has(
    host: Seq<(Seq<char>, Seq<char>)>,
    allowed: Seq<Seq<char>>,
    k: int,
) -> (j: int)
    requires
        0 <= k < host.len(),
        passes(host[k].0, allowed),
    ensures
        0 <= j < passed(host, allowed).len(),
        passed(host, allowed)[j] == env_view(host[k].0, host[k].1),
    decreases host.len(),
{
    if k == host.len() - 1 {
        passed(host, allowed).len() - 1
    } else {
        assert(host.drop_last()[k] == host[k]);
        lemma_passed_has(host.drop_last(), allowed, k)
    }
}

/// Whether a list holds a text.
pub fn holds(list: &[String], name: &str) -> (r: bool)
    ensures
        r == text::views(list@).contains(name@),
{
    for i in 0..list.len()
        invariant
            forall|k: int| 0 <= k < i ==> (#[trigger] list@[k])@ != name@,
    {
        if same(list[i].as_str(), name) {
            assert(text::views(list@)[i as int] == name@);
            return true;
        }
    }
    proof {
        assert forall|k: int| 0 <= k < list@.len() implies #[trigger] text::views(list@)[k]
            != name@ by {
            assert(list@[k]@ != name@);
        }
    }
    false
}

/// Whether a text starts with another.
pub fn starts_with(s: &str, prefix: &str) -> (r: bool)
    ensures
        r == prefix@.is_prefix_of(s@),
{
    match text::strip_prefix(s, prefix) {
        Some(_) => true,
        None => false,
    }
}

fn env_entry(key: &str, value: &str) -> (e: EnvEntry)
    ensures
        e@ == env_view(key@, value@),
{
    let e = EnvEntry { key: key.to_owned(), value: value.to_owned(), description: String::new() };
    assert(e.description@ =~= Seq::empty());
    e
}

impl NamespaceConfig {
    /// The environment inside the sandbox, given the host's.
    pub fn effective_env(&self, host: &[(String, String)]) -> (env: Vec<EnvEntry>)
        ensures
            env_views(env@) == sandbox_env(
                self@.path_dirs,
                self@.allowed_env,
                pair_views(host@),
            ),
    {
        let ghost dirs = text::views(self.path_dirs@);
        let ghost allowed = text::views(self.allowed_env@);
        let ghost vars = pair_views(host@);
        let mut path = "/usr/bin:/usr/local/bin".to_owned();
        assert(dirs.take(0) =~= seq![]);
        for i in 0..self.path_dirs.len()
            invariant
                dirs == text::views(self.path_dirs@),
                path@ == search_path(dirs.take(i as int)),
        {
            path.append(":");
            path.append(self.path_dirs[i].as_str());
            proof {
                assert(dirs.take(i + 1).drop_last() =~= dirs.take(i as int));
                assert(dirs.take(i + 1).last() == self.path_dirs@[i as int]@);
            }
        }
        assert(dirs.take(dirs.len() as int) =~= dirs);
        let mut env: Vec<EnvEntry> = Vec::new();
        env.push(env_entry("PATH", path.as_str()));
        env.push(env_entry("HOME", "/home/maki"));
        env.push(env_entry("USER", "maki"));
        let ghost head = seq![
            env_view("PATH"@, search_path(dirs)),
            env_view("HOME"@, "/home/maki"@),
            env_view("USER"@, "maki"@),
        ];
        assert(vars.take(0) =~= seq![]);
        assert(env_views(env@) =~= head + passed(vars.take(0), allowed));
        for i in 0..host.len()
            invariant
                vars == pair_views(host@),
                allowed == text::views(self.allowed_env@),
                env_views(env@) == head + passed(vars.take(i as int), allowed),
        {
            let name = host[i].0.as_str();
            let fixed = same(name, "PATH") || same(name, "HOME") || same(name, "USER");
            let open = same(name, "LANG") || same(name, "TERM") || same(name, "TMPDIR") || same(
                name,
                "RUST_LOG",
            ) || starts_with(name, "LC_") || holds(self.allowed_env.as_slice(), name);
            let ghost before = env_views(env@);
            proof {
                assert(vars.take(i + 1).drop_last() =~= vars.take(i as int));
                assert(vars.take(i + 1).last() == vars[i as int]);
            }
            if !fixed && open {
                env.push(env_entry(name, host[i].1.as_str()));
                assert(env_views(env@) =~= before.push(
                    env_view(vars[i as int].0, vars[i as int].1),
                ));
            }
            assert(env_views(env@) =~= head + passed(vars.take(i + 1), allowed));
        }
        assert(vars.take(vars.len() as int) =~= vars);
        env
    }
}

/// The environment that a configuration gives starts with `PATH`, and splitting its value at
/// the colons gives the two system directories and then every directory of the configuration,
/// in order, where these hold no colon. `HOME` and `USER` follow, always with these values.
pub proof fn law_environment_of_a_configuration(
    c: NamespaceConfig,
    host: &[(String, String)],
    env: Vec<EnvEntry>,
)
    requires
        call_ensures(NamespaceConfig::effective_env, (&c, host), env),
    ensures
        env@.len() >= 3,
        env@[0].key@ == "PATH"@,
        env@[1].key@ == "HOME"@ && env@[1].value@ == "/home/maki"@,
        env@[2].key@ == "USER"@ && env@[2].value@ == "maki"@,
        (forall|i: int| 0 <= i < c.path_dirs@.len() ==> !(#[trigger] c.path_dirs@[i])@.contains(':'))
            ==> text::split_at_sep(env@[0].value@, seq![':']) == seq![
            "/usr/bin"@,
            "/usr/local/bin"@,
        ] + text::views(c.path_dirs@),
{
    let dirs = text::views(c.path_dirs@);
    let allowed = text::views(c.allowed_env@);
    let vars = pair_views(host@);
    law_environment_is_rebuilt(dirs, allowed, vars);
    let all = env_views(env@);
    assert(all.len() == env@.len());
    assert(all[0] == env@[0]@ && all[1] == env@[1]@ && all[2] == env@[2]@);
    if forall|i: int| 0 <= i < c.path_dirs@.len() ==> !(#[trigger] c.path_dirs@[i])@.contains(':') {
        assert forall|i: int| 0 <= i < dirs.len() implies !(#[trigger] dirs[i]).contains(':') by {
            assert(dirs[i] == c.path_dirs@[i]@);
        }
        law_path_is_searched_in_order(dirs, allowed, vars);
    }
}

} // verus!
