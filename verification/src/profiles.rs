//! Profiles: named collections of host directories to mount inside the sandbox.

use vstd::prelude::*;

use crate::namespace;
use crate::namespace::{ConfigView, NamespaceConfig};
use crate::text;
use crate::text::{concat, join_path, strip_prefix};

verus! {

/// How a profile directory is mounted inside the sandbox.
#[derive(Debug, Clone, Copy, PartialEq, Eq, Structural)]
pub enum MountUsage {
    /// Read-write access to the directory.
    Write,
    /// Read-only access to the directory.
    ReadOnly,
    /// Add the directory to $PATH.
    OnlyPath,
    /// Recreate the host symlink inside the sandbox (e.g. /etc/localtime).
    SymLink,
}

/// How a usage is shown.
pub open spec fn usage_label(usage: MountUsage) -> Seq<char> {
    match usage {
        MountUsage::Write => "rw"@,
        MountUsage::ReadOnly => "ro"@,
        MountUsage::OnlyPath => "on $PATH"@,
        MountUsage::SymLink => "symlink"@,
    }
}

impl MountUsage {
    /// How the usage is shown.
    pub fn label(self) -> (s: &'static str)
        ensures
            s@ == usage_label(self),
    {
        match self {
            MountUsage::Write => "rw",
            MountUsage::ReadOnly => "ro",
            MountUsage::OnlyPath => "on $PATH",
            MountUsage::SymLink => "symlink",
        }
    }
}

/// A single directory mount within a profile.
#[derive(Debug)]
pub struct ProfileMount {
    pub path: String,
    pub usage: MountUsage,
}

/// The model of a mount.
pub struct MountView {
    pub path: Seq<char>,
    pub usage: MountUsage,
}

impl View for ProfileMount {
    type V = MountView;

    open spec fn view(&self) -> MountView {
        MountView { path: self.path@, usage: self.usage }
    }
}

impl MountView {
    /// The absolute host path: `~/` stands for the home directory, where it is known.
    pub open spec fn host_path(self, home: Option<Seq<char>>) -> Seq<char> {
        match (text::stripped(self.path, "~/"@), home) {
            (Some(rest), Some(h)) => text::joined(h, rest),
            _ => self.path,
        }
    }

    /// The path inside the sandbox: `~/` stands for `/home/maki/`.
    pub open spec fn inner_path(self) -> Seq<char> {
        match text::stripped(self.path, "~/"@) {
            Some(rest) => "/home/maki/"@ + rest,
            None => self.path,
        }
    }

    /// The path without a leading `~/`.
    pub open spec fn short_name(self) -> Seq<char> {
        match text::stripped(self.path, "~/"@) {
            Some(rest) => rest,
            None => self.path,
        }
    }
}

/// A path behind `~/` lies in the home directory on the host, where that is known, and in
/// `/home/maki` in the sandbox; its name is what follows.
pub proof fn law_tilde_is_the_home_directory(rest: Seq<char>, usage: MountUsage, h: Seq<char>)
    ensures
        ({
            let m = MountView { path: "~/"@ + rest, usage };
            &&& m.inner_path() == "/home/maki/"@ + rest
            &&& m.short_name() == rest
            &&& m.host_path(None) == "~/"@ + rest
            &&& rest.len() > 0 && rest[0] == '/' ==> m.host_path(Some(h)) == rest
            &&& (rest.len() == 0 || rest[0] != '/') && h.len() > 0 && h.last() != '/'
                ==> m.host_path(Some(h)) == h + seq!['/'] + rest
            &&& (rest.len() == 0 || rest[0] != '/') && h.len() > 0 && h.last() == '/'
                ==> m.host_path(Some(h)) == h + rest
            &&& (rest.len() == 0 || rest[0] != '/') && h.len() == 0 ==> m.host_path(Some(h)) == rest
        }),
{
    reveal_strlit("/");
    reveal_strlit("~/");
    assert("/"@ =~= seq!['/']);
    assert(("~/"@ + rest).skip(2) =~= rest);
    assert(h.len() == 0 ==> h + rest =~= rest);
    assert("~/"@.is_prefix_of("~/"@ + rest));
}

/// A path that does not start with `~/` stays as it is, on the host and in the sandbox.
pub proof fn law_other_paths_stay(m: MountView, home: Option<Seq<char>>)
    requires
        !("~/"@.is_prefix_of(m.path)),
    ensures
        m.host_path(home) == m.path,
        m.inner_path() == m.path,
        m.short_name() == m.path,
{
}

/// The characters of an optional text.
pub open spec fn opt_text(s: Option<&str>) -> Option<Seq<char>> {
    match s {
        Some(t) => Some(t@),
        None => None,
    }
}

impl ProfileMount {
    pub fn rw(path: &str) -> (m: ProfileMount)
        ensures
            m@ == (MountView { path: path@, usage: MountUsage::Write }),
    {
        ProfileMount { path: path.to_owned(), usage: MountUsage::Write }
    }

    pub fn only_path(path: &str) -> (m: ProfileMount)
        ensures
            m@ == (MountView { path: path@, usage: MountUsage::OnlyPath }),
    {
        ProfileMount { path: path.to_owned(), usage: MountUsage::OnlyPath }
    }

    pub fn read_only(path: &str) -> (m: ProfileMount)
        ensures
            m@ == (MountView { path: path@, usage: MountUsage::ReadOnly }),
    {
        ProfileMount { path: path.to_owned(), usage: MountUsage::ReadOnly }
    }

    /// A copy of the mount.
    pub fn copy(&self) -> (m: ProfileMount)
        ensures
            m@ == self@,
    {
        ProfileMount { path: self.path.clone(), usage: self.usage }
    }

    /// Resolve tilde path to an absolute host path, given the home directory.
    pub fn resolved_host_path(&self, home: Option<&str>) -> (s: String)
        ensures
            s@ == self@.host_path(opt_text(home)),
    {
        match (strip_prefix(self.path.as_str(), "~/"), home) {
            (Some(rest), Some(h)) => join_path(h, rest.as_str()),
            _ => self.path.clone(),
        }
    }

    /// Map tilde path to sandbox-internal path (`~/.cargo` to `/home/maki/.cargo`).
    pub fn sandbox_internal_path(&self) -> (s: String)
        ensures
            s@ == self@.inner_path(),
    {
        match strip_prefix(self.path.as_str(), "~/") {
            Some(rest) => concat("/home/maki/", rest.as_str()),
            None => self.path.clone(),
        }
    }

    /// Derive directory name by stripping `~/` prefix (`~/.cargo` to `.cargo`).
    pub fn dir_name(&self) -> (s: String)
        ensures
            s@ == self@.short_name(),
    {
        match strip_prefix(self.path.as_str(), "~/") {
            Some(rest) => rest,
            None => self.path.clone(),
        }
    }
}

/// A named collection of directory mounts that can be toggled on/off.
#[derive(Debug)]
pub struct SandboxProfile {
    pub name: String,
    pub mounts: Vec<ProfileMount>,
}

/// The model of a profile.
pub struct ProfileView {
    pub name: Seq<char>,
    pub mounts: Seq<MountView>,
}

/// The models of mounts.
pub open spec fn mount_views(mounts: Seq<ProfileMount>) -> Seq<MountView> {
    Seq::new(mounts.len(), |i: int| mounts[i]@)
}

impl View for SandboxProfile {
    type V = ProfileView;

    open spec fn view(&self) -> ProfileView {
        ProfileView { name: self.name@, mounts: mount_views(self.mounts@) }
    }
}

/// The models of profiles.
pub open spec fn profile_views(profiles: Seq<SandboxProfile>) -> Seq<ProfileView> {
    Seq::new(profiles.len(), |i: int| profiles[i]@)
}

impl SandboxProfile {
    /// A copy of the profile.
    pub fn copy(&self) -> (p: SandboxProfile)
        ensures
            p@ == self@,
    {
        let mut mounts: Vec<ProfileMount> = Vec::new();
        for i in 0..self.mounts.len()
            invariant
                mounts@.len() == i,
                forall|k: int| 0 <= k < i ==> (#[trigger] mounts@[k])@ == self.mounts@[k]@,
        {
            mounts.push(self.mounts[i].copy());
        }
        assert(mount_views(mounts@) =~= mount_views(self.mounts@));
        SandboxProfile { name: self.name.clone(), mounts }
    }
}

/// A mount with the given path and usage.
pub open spec fn mount(path: Seq<char>, usage: MountUsage) -> MountView {
    MountView { path, usage }
}

/// The built-in profiles.
pub open spec fn known_profiles() -> Seq<ProfileView> {
    seq![
        ProfileView {
            name: "rust"@,
            mounts: seq![
                mount("~/.cargo"@, MountUsage::Write),
                mount("~/.cargo/bin"@, MountUsage::OnlyPath),
                mount("~/.rustup"@, MountUsage::ReadOnly),
            ],
        },
        ProfileView {
            name: "java"@,
            mounts: seq![
                mount("~/.m2"@, MountUsage::Write),
                mount("~/.gradle"@, MountUsage::Write),
            ],
        },
        ProfileView {
            name: "node"@,
            mounts: seq![
                mount("~/.npm"@, MountUsage::Write),
                mount("~/.yarn"@, MountUsage::Write),
                mount("~/.npm/bin"@, MountUsage::OnlyPath),
            ],
        },
        ProfileView {
            name: "go"@,
            mounts: seq![
                mount("~/go"@, MountUsage::Write),
                mount("~/go/bin"@, MountUsage::OnlyPath),
            ],
        },
    ]
}

/// The built-in profiles are `rust`, `java`, `node` and `go`. Every directory that one puts on
/// the search path lies in one that it mounts with write access, and every mount lies in the
/// home directory.
pub proof fn law_built_in_profiles(i: int, j: int)
    requires
        0 <= i < known_profiles().len(),
        0 <= j < known_profiles()[i].mounts.len(),
    ensures
        known_profiles().map_values(|p: ProfileView| p.name) == seq![
            "rust"@,
            "java"@,
            "node"@,
            "go"@,
        ],
        "~/"@.is_prefix_of(known_profiles()[i].mounts[j].path),
        known_profiles()[i].mounts[j].usage == MountUsage::OnlyPath ==> exists|k: int|
            0 <= k < known_profiles()[i].mounts.len() && (
            #[trigger] known_profiles()[i].mounts[k]).usage == MountUsage::Write
                && known_profiles()[i].mounts[j].path == known_profiles()[i].mounts[k].path
                + "/bin"@,
{
    reveal_strlit("~/");
    reveal_strlit("/bin");
    reveal_strlit("~/.cargo");
    reveal_strlit("~/.cargo/bin");
    reveal_strlit("~/.rustup");
    reveal_strlit("~/.m2");
    reveal_strlit("~/.gradle");
    reveal_strlit("~/.npm");
    reveal_strlit("~/.yarn");
    reveal_strlit("~/.npm/bin");
    reveal_strlit("~/go");
    reveal_strlit("~/go/bin");
    assert(known_profiles().map_values(|p: ProfileView| p.name) =~= seq![
        "rust"@,
        "java"@,
        "node"@,
        "go"@,
    ]);
    let first = known_profiles()[i].mounts[0];
    let m = known_profiles()[i].mounts[j];
    assert(m.path[0] == '~' && m.path[1] == '/');
    assert(m.path.take(2) =~= "~/"@);
    if m.usage == MountUsage::OnlyPath {
        assert(first.usage == MountUsage::Write);
        assert(m.path =~= first.path + "/bin"@);
    }
}

/// Each built-in profile mounts these directories with these usages, and no others.
pub proof fn law_mounts_of_the_built_in_profiles()
    ensures
        ({
            let all = known_profiles().map_values(|p: ProfileView| p.mounts);
            &&& all.len() == 4
            &&& all[0].len() == 3 && all[1].len() == 2 && all[2].len() == 3 && all[3].len() == 2
            &&& all[0][0].path == "~/.cargo"@ && all[0][0].usage == MountUsage::Write
            &&& all[0][1].path == "~/.cargo/bin"@ && all[0][1].usage == MountUsage::OnlyPath
            &&& all[0][2].path == "~/.rustup"@ && all[0][2].usage == MountUsage::ReadOnly
            &&& all[1][0].path == "~/.m2"@ && all[1][0].usage == MountUsage::Write
            &&& all[1][1].path == "~/.gradle"@ && all[1][1].usage == MountUsage::Write
            &&& all[2][0].path == "~/.npm"@ && all[2][0].usage == MountUsage::Write
            &&& all[2][1].path == "~/.yarn"@ && all[2][1].usage == MountUsage::Write
            &&& all[2][2].path == "~/.npm/bin"@ && all[2][2].usage == MountUsage::OnlyPath
            &&& all[3][0].path == "~/go"@ && all[3][0].usage == MountUsage::Write
            &&& all[3][1].path == "~/go/bin"@ && all[3][1].usage == MountUsage::OnlyPath
        }),
{
}

fn profile(name: &str, mounts: Vec<ProfileMount>) -> (p: SandboxProfile)
    ensures
        p@ == (ProfileView { name: name@, mounts: mount_views(mounts@) }),
{
    SandboxProfile { name: name.to_owned(), mounts }
}

/// Returns the built-in profiles.
pub fn builtin_profiles() -> (list: Vec<SandboxProfile>)
    ensures
        profile_views(list@) == known_profiles(),
{
    let rust = vec![
        ProfileMount::rw("~/.cargo"),
        ProfileMount::only_path("~/.cargo/bin"),
        ProfileMount::read_only("~/.rustup"),
    ];
    let java = vec![ProfileMount::rw("~/.m2"), ProfileMount::rw("~/.gradle")];
    let node = vec![
        ProfileMount::rw("~/.npm"),
        ProfileMount::rw("~/.yarn"),
        ProfileMount::only_path("~/.npm/bin"),
    ];
    let go = vec![ProfileMount::rw("~/go"), ProfileMount::only_path("~/go/bin")];
    proof {
        assert(mount_views(rust@) =~= known_profiles()[0].mounts);
        assert(mount_views(java@) =~= known_profiles()[1].mounts);
        assert(mount_views(node@) =~= known_profiles()[2].mounts);
        assert(mount_views(go@) =~= known_profiles()[3].mounts);
    }
    let list = vec![
        profile("rust", rust),
        profile("java", java),
        profile("node", node),
        profile("go", go),
    ];
    assert(profile_views(list@) =~= known_profiles());
    list
}

/// The mounts of all profiles, in order.
pub open spec fn all_mounts(profiles: Seq<ProfileView>) -> Seq<MountView>
    decreases profiles.len(),
{
    if profiles.len() == 0 {
        seq![]
    } else {
        all_mounts(profiles.drop_last()) + profiles.last().mounts
    }
}

/// The host path and the name of each mount of one usage, in order.
pub open spec fn host_mounts(
    mounts: Seq<MountView>,
    usage: MountUsage,
    home: Option<Seq<char>>,
) -> Seq<(Seq<char>, Seq<char>)>
    decreases mounts.len(),
{
    if mounts.len() == 0 {
        seq![]
    } else {
        let before = host_mounts(mounts.drop_last(), usage, home);
        let m = mounts.last();
        if m.usage == usage {
            before.push((m.host_path(home), m.short_name()))
        } else {
            before
        }
    }
}

/// The directories that mounts add to the search path, in order.
pub open spec fn path_entries(mounts: Seq<MountView>) -> Seq<Seq<char>>
    decreases mounts.len(),
{
    if mounts.len() == 0 {
        seq![]
    } else {
        let before = path_entries(mounts.drop_last());
        if mounts.last().usage == MountUsage::OnlyPath {
            before.push(mounts.last().inner_path())
        } else {
            before
        }
    }
}

/// Every mount counts once: as a writable or a read-only mount, as a link, or as an entry
/// of the search path.
pub proof fn law_each_mount_counts_once(mounts: Seq<MountView>, home: Option<Seq<char>>)
    ensures
        host_mounts(mounts, MountUsage::Write, home).len() + host_mounts(
            mounts,
            MountUsage::ReadOnly,
            home,
        ).len() + host_mounts(mounts, MountUsage::SymLink, home).len() + path_entries(mounts).len()
            == mounts.len(),
    decreases mounts.len(),
{
    if mounts.len() > 0 {
        law_each_mount_counts_once(mounts.drop_last(), home);
    }
}

/// The configuration that profiles and extra mounts amount to.
pub open spec fn config_for(
    profiles: Seq<ProfileView>,
    workspace_dir: Seq<char>,
    workspace_name: Seq<char>,
    extra_home_mounts: Seq<(Seq<char>, Seq<char>)>,
    extra_workspace_dirs: Seq<(Seq<char>, Seq<char>)>,
    home: Option<Seq<char>>,
) -> ConfigView {
    let mounts = all_mounts(profiles);
    ConfigView {
        allowed_env: seq![],
        workspace_dir,
        workspace_name,
        home_mounts: extra_home_mounts + host_mounts(mounts, MountUsage::Write, home),
        readonly_mounts: host_mounts(mounts, MountUsage::ReadOnly, home),
        path_dirs: path_entries(mounts),
        extra_workspace_dirs,
        symlinks: host_mounts(mounts, MountUsage::SymLink, home),
    }
}

/// The configuration holds the extra home mounts and then every writable mount of every
/// profile, in order; the read-only mounts, the links and the search path hold all others,
/// and what was given besides is taken over as it is.
pub proof fn law_configuration_is_complete(
    profiles: Seq<ProfileView>,
    workspace_dir: Seq<char>,
    workspace_name: Seq<char>,
    extra_home_mounts: Seq<(Seq<char>, Seq<char>)>,
    extra_workspace_dirs: Seq<(Seq<char>, Seq<char>)>,
    home: Option<Seq<char>>,
)
    ensures
        ({
            let c = config_for(
                profiles,
                workspace_dir,
                workspace_name,
                extra_home_mounts,
                extra_workspace_dirs,
                home,
            );
            let mounts = profiles.map_values(|p: ProfileView| p.mounts).flatten();
            let named = |m: MountView| (m.host_path(home), m.short_name());
            &&& c.home_mounts == extra_home_mounts + mounts.filter(
                |m: MountView| m.usage == MountUsage::Write,
            ).map_values(named)
            &&& c.readonly_mounts == mounts.filter(
                |m: MountView| m.usage == MountUsage::ReadOnly,
            ).map_values(named)
            &&& c.symlinks == mounts.filter(
                |m: MountView| m.usage == MountUsage::SymLink,
            ).map_values(named)
            &&& c.path_dirs == mounts.filter(
                |m: MountView| m.usage == MountUsage::OnlyPath,
            ).map_values(|m: MountView| m.inner_path())
            &&& c.workspace_dir == workspace_dir
            &&& c.workspace_name == workspace_name
            &&& c.extra_workspace_dirs == extra_workspace_dirs
            &&& c.allowed_env.len() == 0
        }),
{
    let mounts = all_mounts(profiles);
    lemma_all_mounts(profiles);
    lemma_host_mounts(mounts, MountUsage::Write, home);
    lemma_host_mounts(mounts, MountUsage::ReadOnly, home);
    lemma_host_mounts(mounts, MountUsage::SymLink, home);
    lemma_path_entries(mounts);
    assert((|m: MountView| m.usage == MountUsage::Write) =~= with_usage(MountUsage::Write));
    assert((|m: MountView| m.usage == MountUsage::ReadOnly) =~= with_usage(MountUsage::ReadOnly));
    assert((|m: MountView| m.usage == MountUsage::SymLink) =~= with_usage(MountUsage::SymLink));
    assert((|m: MountView| m.usage == MountUsage::OnlyPath) =~= with_usage(MountUsage::OnlyPath));
}

/// Every mount of every profile is in the configuration: a writable one among the home
/// mounts, a read-only one among the read-only mounts and a link among the links, with its
/// host path and its name, and one that is only for the search path on that path. Every
/// extra home mount is there too.
pub proof fn law_no_mount_is_left_out(
    profiles: Seq<ProfileView>,
    workspace_dir: Seq<char>,
    workspace_name: Seq<char>,
    extra_home_mounts: Seq<(Seq<char>, Seq<char>)>,
    extra_workspace_dirs: Seq<(Seq<char>, Seq<char>)>,
    home: Option<Seq<char>>,
    i: int,
    j: int,
)
    requires
        0 <= i < profiles.len(),
        0 <= j < profiles[i].mounts.len(),
    ensures
        ({
            let c = config_for(
                profiles,
                workspace_dir,
                workspace_name,
                extra_home_mounts,
                extra_workspace_dirs,
                home,
            );
            let m = profiles[i].mounts[j];
            &&& match m.usage {
                MountUsage::Write => c.home_mounts.contains((m.host_path(home), m.short_name())),
                MountUsage::ReadOnly => c.readonly_mounts.contains(
                    (m.host_path(home), m.short_name()),
                ),
                MountUsage::SymLink => c.symlinks.contains((m.host_path(home), m.short_name())),
                MountUsage::OnlyPath => c.path_dirs.contains(m.inner_path()),
            }
            &&& forall|k: int|
                0 <= k < extra_home_mounts.len() ==> c.home_mounts.contains(
                    #[trigger] extra_home_mounts[k],
                )
        }),
{
    let c = config_for(
        profiles,
        workspace_dir,
        workspace_name,
        extra_home_mounts,
        extra_workspace_dirs,
        home,
    );
    let m = profiles[i].mounts[j];
    let mounts = all_mounts(profiles);
    let at = lemma_mount_is_listed(profiles, i, j);
    if m.usage == MountUsage::OnlyPath {
        let k = lemma_path_entry(mounts, at);
        assert(c.path_dirs[k] == m.inner_path());
    } else {
        let k = lemma_host_mount(mounts, m.usage, home, at);
        let entry = (m.host_path(home), m.short_name());
        match m.usage {
            MountUsage::Write => {
                assert(c.home_mounts[extra_home_mounts.len() + k] == entry);
            },
            MountUsage::ReadOnly => {
                assert(c.readonly_mounts[k] == entry);
            },
            _ => {
                assert(c.symlinks[k] == entry);
            },
        }
    }
    assert forall|k: int| 0 <= k < extra_home_mounts.len() implies c.home_mounts.contains(
        #[trigger] extra_home_mounts[k],
    ) by {
        assert(c.home_mounts[k] == extra_home_mounts[k]);
    }
}

/// There are as many home mounts as extra mounts and writable mounts of the profiles
/// together, and as many entries in each other list as mounts of its usage.
pub proof fn law_mounts_are_counted(
    profiles: Seq<ProfileView>,
    workspace_dir: Seq<char>,
    workspace_name: Seq<char>,
    extra_home_mounts: Seq<(Seq<char>, Seq<char>)>,
    extra_workspace_dirs: Seq<(Seq<char>, Seq<char>)>,
    home: Option<Seq<char>>,
)
    ensures
        ({
            let c = config_for(
                profiles,
                workspace_dir,
                workspace_name,
                extra_home_mounts,
                extra_workspace_dirs,
                home,
            );
            let of = |usage: MountUsage|
                profiles.fold_left(
                    0nat,
                    |n: nat, p: ProfileView|
                        n + p.mounts.filter(|m: MountView| m.usage == usage).len(),
                );
            &&& c.home_mounts.len() == extra_home_mounts.len() + of(MountUsage::Write)
            &&& c.readonly_mounts.len() == of(MountUsage::ReadOnly)
            &&& c.symlinks.len() == of(MountUsage::SymLink)
            &&& c.path_dirs.len() == of(MountUsage::OnlyPath)
        }),
{
    let mounts = all_mounts(profiles);
    lemma_host_mounts(mounts, MountUsage::Write, home);
    lemma_host_mounts(mounts, MountUsage::ReadOnly, home);
    lemma_host_mounts(mounts, MountUsage::SymLink, home);
    lemma_path_entries(mounts);
    lemma_mounts_by_profile(profiles, MountUsage::Write);
    lemma_mounts_by_profile(profiles, MountUsage::ReadOnly);
    lemma_mounts_by_profile(profiles, MountUsage::SymLink);
    lemma_mounts_by_profile(profiles, MountUsage::OnlyPath);
}

spec fn with_usage(usage: MountUsage) -> spec_fn(MountView) -> bool {
    |m: MountView| m.usage == usage
}

proof fn lemma_mounts_by_profile(profiles: Seq<ProfileView>, usage: MountUsage)
    ensures
        all_mounts(profiles).filter(|m: MountView| m.usage == usage).len() == profiles.fold_left(
            0nat,
            |n: nat, p: ProfileView| n + p.mounts.filter(|m: MountView| m.usage == usage).len(),
        ),
    decreases profiles.len(),
{
    let pred = |m: MountView| m.usage == usage;
    let more = |n: nat, p: ProfileView| n + p.mounts.filter(|m: MountView| m.usage == usage).len();
    if profiles.len() == 0 {
        reveal(Seq::filter);
        assert(all_mounts(profiles).filter(pred).len() == 0);
    } else {
        let init = profiles.drop_last();
        lemma_mounts_by_profile(init, usage);
        Seq::filter_distributes_over_add(all_mounts(init), profiles.last().mounts, pred);
        assert(profiles.fold_left(0nat, more) == more(init.fold_left(0nat, more), profiles.last()));
    }
}

proof fn lemma_all_mounts(profiles: Seq<ProfileView>)
    ensures
        all_mounts(profiles) == profiles.map_values(|p: ProfileView| p.mounts).flatten(),
    decreases profiles.len(),
{
    let f = |p: ProfileView| p.mounts;
    let lists = profiles.map_values(f);
    if profiles.len() == 0 {
        assert(lists =~= Seq::<Seq<MountView>>::empty());
    } else {
        let init = profiles.drop_last();
        lemma_all_mounts(init);
        assert(lists =~= init.map_values(f).push(profiles.last().mounts));
        init.map_values(f).lemma_flatten_push(profiles.last().mounts);
    }
}

proof fn lemma_host_mounts(mounts: Seq<MountView>, usage: MountUsage, home: Option<Seq<char>>)
    ensures
        host_mounts(mounts, usage, home) == mounts.filter(
            |m: MountView| m.usage == usage,
        ).map_values(|m: MountView| (m.host_path(home), m.short_name())),
    decreases mounts.len(),
{
    reveal(Seq::filter);
    let pred = |m: MountView| m.usage == usage;
    let f = |m: MountView| (m.host_path(home), m.short_name());
    if mounts.len() == 0 {
        assert(mounts.filter(pred).map_values(f) =~= seq![]);
    } else {
        let init = mounts.drop_last();
        lemma_host_mounts(init, usage, home);
        assert(mounts.filter(pred).map_values(f) =~= host_mounts(mounts, usage, home));
    }
}

proof fn lemma_path_entries(mounts: Seq<MountView>)
    ensures
        path_entries(mounts) == mounts.filter(
            |m: MountView| m.usage == MountUsage::OnlyPath,
        ).map_values(|m: MountView| m.inner_path()),
    decreases mounts.len(),
{
    reveal(Seq::filter);
    let pred = |m: MountView| m.usage == MountUsage::OnlyPath;
    let f = |m: MountView| m.inner_path();
    if mounts.len() == 0 {
        assert(mounts.filter(pred).map_values(f) =~= seq![]);
    } else {
        let init = mounts.drop_last();
        lemma_path_entries(init);
        assert(mounts.filter(pred).map_values(f) =~= path_entries(mounts));
    }
}

proof fn lemma_mount_is_listed(profiles: Seq<ProfileView>, i: int, j: int) -> (at: int)
    requires
        0 <= i < profiles.len(),
        0 <= j < profiles[i].mounts.len(),
    ensures
        0 <= at < all_mounts(profiles).len(),
        all_mounts(profiles)[at] == profiles[i].mounts[j],
    decreases profiles.len(),
{
    let init = profiles.drop_last();
    if i == profiles.len() - 1 {
        all_mounts(init).len() + j
    } else {
        assert(init[i] == profiles[i]);
        lemma_mount_is_listed(init, i, j)
    }
}

proof fn lemma_host_mount(
    mounts: Seq<MountView>,
    usage: MountUsage,
    home: Option<Seq<char>>,
    at: int,
) -> (k: int)
    requires
        0 <= at < mounts.len(),
        mounts[at].usage == usage,
    ensures
        0 <= k < host_mounts(mounts, usage, home).len(),
        host_mounts(mounts, usage, home)[k] == (
            mounts[at].host_path(home),
            mounts[at].short_name(),
        ),
    decreases mounts.len(),
{
    let init = mounts.drop_last();
    if at == mounts.len() - 1 {
        host_mounts(init, usage, home).len() as int
    } else {
        assert(init[at] == mounts[at]);
        lemma_host_mount(init, usage, home, at)
    }
}

proof fn lemma_path_entry(mounts: Seq<MountView>, at: int) -> (k: int)
    requires
        0 <= at < mounts.len(),
        mounts[at].usage == MountUsage::OnlyPath,
    ensures
        0 <= k < path_entries(mounts).len(),
        path_entries(mounts)[k] == mounts[at].inner_path(),
    decreases mounts.len(),
{
    let init = mounts.drop_last();
    if at == mounts.len() - 1 {
        path_entries(init).len() as int
    } else {
        assert(init[at] == mounts[at]);
        lemma_path_entry(init, at)
    }
}

/// Build a [`NamespaceConfig`] from profiles, given the home directory of the host.
///
/// Each profile contributes mounts and PATH entries. `extra_home_mounts`
/// are additional host paths to bind-mount (e.g. from the UI info struct).
pub fn build_namespace_config(
    profiles: &[SandboxProfile],
    workspace_dir: String,
    workspace_name: String,
    extra_home_mounts: Vec<(String, String)>,
    extra_workspace_dirs: Vec<(String, String)>,
    home: Option<&str>,
) -> (c: NamespaceConfig)
    ensures
        c@ == config_for(
            profile_views(profiles@),
            workspace_dir@,
            workspace_name@,
            namespace::pair_views(extra_home_mounts@),
            namespace::pair_views(extra_workspace_dirs@),
            opt_text(home),
        ),
{
    let ghost extra = namespace::pair_views(extra_home_mounts@);
    let ghost all = profile_views(profiles@);
    let ghost h = opt_text(home);
    let mut home_mounts = extra_home_mounts;
    let mut readonly_mounts: Vec<(String, String)> = Vec::new();
    let mut path_dirs: Vec<String> = Vec::new();
    let mut symlinks: Vec<(String, String)> = Vec::new();
    proof {
        assert(all.take(0) =~= seq![]);
        assert(namespace::pair_views(home_mounts@) =~= extra + host_mounts(
            seq![],
            MountUsage::Write,
            h,
        ));
        assert(namespace::pair_views(readonly_mounts@) =~= seq![]);
        assert(text::views(path_dirs@) =~= seq![]);
        assert(namespace::pair_views(symlinks@) =~= seq![]);
    }
    for i in 0..profiles.len()
        invariant
            all == profile_views(profiles@),
            h == opt_text(home),
            namespace::pair_views(home_mounts@) == extra + host_mounts(
                all_mounts(all.take(i as int)),
                MountUsage::Write,
                h,
            ),
            namespace::pair_views(readonly_mounts@) == host_mounts(
                all_mounts(all.take(i as int)),
                MountUsage::ReadOnly,
                h,
            ),
            text::views(path_dirs@) == path_entries(all_mounts(all.take(i as int))),
            namespace::pair_views(symlinks@) == host_mounts(
                all_mounts(all.take(i as int)),
                MountUsage::SymLink,
                h,
            ),
    {
        let ghost done = all_mounts(all.take(i as int));
        let ghost these = all[i as int].mounts;
        proof {
            assert(done + these.take(0) =~= done);
        }
        let mounts = &profiles[i].mounts;
        for j in 0..mounts.len()
            invariant
                i < profiles@.len(),
                *mounts == profiles@[i as int].mounts,
                all == profile_views(profiles@),
                these == all[i as int].mounts,
                h == opt_text(home),
                namespace::pair_views(home_mounts@) == extra + host_mounts(
                    done + these.take(j as int),
                    MountUsage::Write,
                    h,
                ),
                namespace::pair_views(readonly_mounts@) == host_mounts(
                    done + these.take(j as int),
                    MountUsage::ReadOnly,
                    h,
                ),
                text::views(path_dirs@) == path_entries(done + these.take(j as int)),
                namespace::pair_views(symlinks@) == host_mounts(
                    done + these.take(j as int),
                    MountUsage::SymLink,
                    h,
                ),
        {
            let m = &mounts[j];
            let ghost before_home = namespace::pair_views(home_mounts@);
            let ghost before_ro = namespace::pair_views(readonly_mounts@);
            let ghost before_path = text::views(path_dirs@);
            let ghost before_links = namespace::pair_views(symlinks@);
            let ghost part = done + these.take(j + 1);
            proof {
                assert(these[j as int] == m@);
                assert(part.drop_last() =~= done + these.take(j as int));
                assert(part.last() == m@);
            }
            let path = m.resolved_host_path(home);
            let name = m.dir_name();
            let ghost entry = (m@.host_path(h), m@.short_name());
            match m.usage {
                MountUsage::Write => {
                    home_mounts.push((path, name));
                    assert(namespace::pair_views(home_mounts@) =~= before_home.push(entry));
                    assert(before_home.push(entry) =~= extra + host_mounts(
                        part,
                        MountUsage::Write,
                        h,
                    ));
                },
                MountUsage::ReadOnly => {
                    readonly_mounts.push((path, name));
                    assert(namespace::pair_views(readonly_mounts@) =~= before_ro.push(entry));
                },
                MountUsage::OnlyPath => {
                    path_dirs.push(m.sandbox_internal_path());
                    assert(text::views(path_dirs@) =~= before_path.push(m@.inner_path()));
                },
                MountUsage::SymLink => {
                    symlinks.push((path, name));
                    assert(namespace::pair_views(symlinks@) =~= before_links.push(entry));
                },
            }
        }
        proof {
            assert(these.take(these.len() as int) =~= these);
            assert(all.take(i + 1).drop_last() =~= all.take(i as int));
            assert(all.take(i + 1).last() == all[i as int]);
        }
    }
    assert(all.take(all.len() as int) =~= all);
    let allowed_env: Vec<String> = Vec::new();
    assert(text::views(allowed_env@) =~= seq![]);
    NamespaceConfig {
        allowed_env,
        workspace_dir,
        workspace_name,
        home_mounts,
        readonly_mounts,
        path_dirs,
        extra_workspace_dirs,
        symlinks,
    }
}

/// The directories that profiles add to the search path.
pub fn profile_path_dirs(profiles: &[SandboxProfile]) -> (dirs: Vec<String>)
    ensures
        text::views(dirs@) == path_entries(all_mounts(profile_views(profiles@))),
{
    let c = build_namespace_config(
        profiles,
        String::new(),
        String::new(),
        Vec::new(),
        Vec::new(),
        None,
    );
    c.path_dirs
}

/// How a mount is made decides its usage, and its path is the one that it was given.
pub proof fn law_mounts_are_made_as_asked(
    path: &str,
    a: ProfileMount,
    b: ProfileMount,
    c: ProfileMount,
)
    requires
        call_ensures(ProfileMount::rw, (path,), a),
        call_ensures(ProfileMount::read_only, (path,), b),
        call_ensures(ProfileMount::only_path, (path,), c),
    ensures
        a.path@ == path@ && a.usage == MountUsage::Write,
        b.path@ == path@ && b.usage == MountUsage::ReadOnly,
        c.path@ == path@ && c.usage == MountUsage::OnlyPath,
{
}

/// A configuration that is built has, in order, every extra home mount and then every
/// writable mount of every profile, with its host path and its name, and nothing else there.
pub proof fn law_built_configuration_has_every_mount(
    profiles: &[SandboxProfile],
    workspace_dir: String,
    workspace_name: String,
    extra_home_mounts: Vec<(String, String)>,
    extra_workspace_dirs: Vec<(String, String)>,
    home: Option<&str>,
    c: NamespaceConfig,
    i: int,
    j: int,
)
    requires
        call_ensures(
            build_namespace_config,
            (
                profiles,
                workspace_dir,
                workspace_name,
                extra_home_mounts,
                extra_workspace_dirs,
                home,
            ),
            c,
        ),
    ensures
        c.workspace_dir@ == workspace_dir@ && c.workspace_name@ == workspace_name@,
        namespace::pair_views(extra_home_mounts@).is_prefix_of(
            namespace::pair_views(c.home_mounts@),
        ),
        c.home_mounts@.len() == extra_home_mounts@.len() + profile_views(profiles@).map_values(
            |p: ProfileView| p.mounts,
        ).flatten().filter(|m: MountView| m.usage == MountUsage::Write).len(),
        0 <= i < profiles@.len() && 0 <= j < profiles@[i].mounts@.len()
            && profiles@[i].mounts@[j].usage == MountUsage::Write ==> namespace::pair_views(
            c.home_mounts@,
        ).contains(
            (
                profiles@[i].mounts@[j]@.host_path(opt_text(home)),
                profiles@[i].mounts@[j]@.short_name(),
            ),
        ),
{
    let all = profile_views(profiles@);
    let extra = namespace::pair_views(extra_home_mounts@);
    let dirs = namespace::pair_views(extra_workspace_dirs@);
    law_configuration_is_complete(
        all,
        workspace_dir@,
        workspace_name@,
        extra,
        dirs,
        opt_text(home),
    );
    let mounts = namespace::pair_views(c.home_mounts@);
    assert(mounts.len() == c.home_mounts@.len());
    assert(extra.len() == extra_home_mounts@.len());
    assert(mounts.take(extra.len() as int) =~= extra);
    if 0 <= i < profiles@.len() && 0 <= j < profiles@[i].mounts@.len() {
        assert(all[i].mounts[j] == profiles@[i].mounts@[j]@);
        law_no_mount_is_left_out(
            all,
            workspace_dir@,
            workspace_name@,
            extra,
            dirs,
            opt_text(home),
            i,
            j,
        );
    }
}

} // verus!
