//! The overview of the sandbox: its configuration as lines of text.

use vstd::prelude::*;

use crate::namespace;
use crate::namespace::{EnvEntry, EnvView};
use crate::profiles;
use crate::profiles::{
    profile_path_dirs, MountUsage, MountView, ProfileMount, ProfileView, SandboxProfile,
};
use crate::screen;
use crate::screen::{push_blank, push_spans, push_text, Line, Role, Span, SpanView};
use crate::text;
use crate::text::{concat, join_list};

verus! {

/// Snapshot of sandbox configuration for display.
#[derive(Debug)]
pub struct SandboxInfo {
    pub enabled: bool,
    pub env_entries: Vec<EnvEntry>,
    pub workspace_dir: String,
    pub workspace_name: String,
    pub home_mounts: Vec<(String, String)>,
    /// (profile, enabled) pairs shown on the info tab.
    pub profiles: Vec<(SandboxProfile, bool)>,
    /// Extra host directories to bind-mount into the workspace.
    pub extra_workspace_dirs: Vec<(String, String)>,
}

/// The model of a configuration snapshot.
#[verifier::ext_equal]
pub struct InfoView {
    pub enabled: bool,
    pub env_entries: Seq<EnvView>,
    pub workspace_dir: Seq<char>,
    pub workspace_name: Seq<char>,
    pub home_mounts: Seq<(Seq<char>, Seq<char>)>,
    pub profiles: Seq<(ProfileView, bool)>,
    pub extra_workspace_dirs: Seq<(Seq<char>, Seq<char>)>,
}

/// The models of profiles with their switches.
pub open spec fn switch_views(list: Seq<(SandboxProfile, bool)>) -> Seq<(ProfileView, bool)> {
    Seq::new(list.len(), |i: int| (list[i].0@, list[i].1))
}

impl View for SandboxInfo {
    type V = InfoView;

    open spec fn view(&self) -> InfoView {
        InfoView {
            enabled: self.enabled,
            env_entries: namespace::env_views(self.env_entries@),
            workspace_dir: self.workspace_dir@,
            workspace_name: self.workspace_name@,
            home_mounts: namespace::pair_views(self.home_mounts@),
            profiles: switch_views(self.profiles@),
            extra_workspace_dirs: namespace::pair_views(self.extra_workspace_dirs@),
        }
    }
}

/// The profiles that are switched on, in order.
pub open spec fn enabled_of(list: Seq<(ProfileView, bool)>) -> Seq<ProfileView>
    decreases list.len(),
{
    if list.len() == 0 {
        seq![]
    } else {
        let before = enabled_of(list.drop_last());
        if list.last().1 {
            before.push(list.last().0)
        } else {
            before
        }
    }
}

/// The profiles that are on are exactly those whose switch is, in their order.
pub proof fn law_switches_pick_profiles(list: Seq<(ProfileView, bool)>)
    ensures
        enabled_of(list) == list.filter(|p: (ProfileView, bool)| p.1).map_values(
            |p: (ProfileView, bool)| p.0,
        ),
    decreases list.len(),
{
    reveal(Seq::filter);
    let on = |p: (ProfileView, bool)| p.1;
    let profile = |p: (ProfileView, bool)| p.0;
    if list.len() == 0 {
        assert(list.filter(on).map_values(profile) =~= seq![]);
    } else {
        law_switches_pick_profiles(list.drop_last());
        assert(list.filter(on).map_values(profile) =~= enabled_of(list));
    }
}

// ── The lines, section by section ──

/// The status of the sandbox.
pub open spec fn status_lines(enabled: bool) -> Seq<Seq<SpanView>> {
    seq![
        screen::one("  Status (press s to toggle)"@, Role::Section),
        screen::one(
            "    "@ + if enabled {
                "enabled"@
            } else {
                "disabled"@
            },
            Role::Plain,
        ),
    ]
}

/// The role of something that may be selected or on.
pub open spec fn marked(on: bool) -> Role {
    if on {
        Role::Selected
    } else {
        Role::Plain
    }
}

/// The inside of a check box.
pub open spec fn tick(on: bool) -> Seq<char> {
    if on {
        "x"@
    } else {
        " "@
    }
}

/// The check box for skipping permission prompts. It is shown while the sandbox is on.
pub open spec fn yolo_lines(enabled: bool, yolo: bool) -> Seq<Seq<SpanView>> {
    if enabled {
        seq![
            screen::blank(),
            screen::one(
                "  YOLO (press y to toggle) — skip permission prompts for all tools"@,
                Role::Section,
            ),
            seq![
                screen::span("    ["@, Role::Plain),
                screen::span(tick(yolo), marked(yolo)),
                screen::span("] "@, Role::Plain),
                screen::span(
                    if yolo {
                        "on"@
                    } else {
                        "off"@
                    },
                    marked(yolo),
                ),
            ],
        ]
    } else {
        seq![]
    }
}

/// The line of a profile.
pub open spec fn profile_line(name: Seq<char>, enabled: bool, selected: bool) -> Seq<SpanView> {
    seq![
        screen::span(
            if selected {
                "  ▸ "@
            } else {
                "    "@
            },
            marked(selected),
        ),
        screen::span("["@, Role::Plain),
        screen::span(tick(enabled), marked(enabled)),
        screen::span("] "@, Role::Plain),
        screen::span(name, marked(selected)),
    ]
}

/// How a mount is named in a list.
pub open spec fn mount_label(m: MountView) -> Seq<char> {
    m.path + " ("@ + profiles::usage_label(m.usage) + ")"@
}

/// The mounts of a profile, on one line.
pub open spec fn mounts_line(p: ProfileView) -> Seq<SpanView> {
    screen::one(
        "      Mounts: "@ + text::join_with(
            Seq::new(p.mounts.len(), |i: int| mount_label(p.mounts[i])),
            ", "@,
        ),
        Role::Dim,
    )
}

/// The lines of the first `n` profiles. The one at the cursor shows its mounts.
pub open spec fn profile_lines(
    list: Seq<(ProfileView, bool)>,
    cursor: Option<int>,
    n: int,
) -> Seq<Seq<SpanView>>
    decreases n,
{
    if n <= 0 {
        seq![]
    } else {
        let p = list[n - 1];
        let selected = cursor == Some(n - 1);
        profile_lines(list, cursor, n - 1) + seq![profile_line(p.0.name, p.1, selected)] + (
        if selected {
            seq![mounts_line(p.0)]
        } else {
            seq![]
        })
    }
}

/// The profiles.
pub open spec fn profiles_section(
    list: Seq<(ProfileView, bool)>,
    cursor: Option<int>,
) -> Seq<Seq<SpanView>> {
    if list.len() == 0 {
        seq![]
    } else {
        seq![
            screen::blank(),
            screen::one(
                "  Profiles (navigate with ↑/↓, toggle with Enter/Space)"@,
                Role::Section,
            ),
        ] + profile_lines(list, cursor, list.len() as int)
    }
}

/// What every sandbox holds.
pub open spec fn layout_lines(workspace_dir: Seq<char>) -> Seq<Seq<SpanView>> {
    seq![
        screen::blank(),
        screen::one("  Filesystem layout"@, Role::Section),
        screen::one("    /home/maki/workspace  ←  "@ + workspace_dir + "  (rw)"@, Role::Plain),
        screen::one("    /usr                       (ro, system)"@, Role::Dim),
        screen::one("    /etc                       (tmpfs, empty)"@, Role::Dim),
        screen::one("    /tmp                       (tmpfs, scratch)"@, Role::Dim),
        screen::one("    /bin → /usr/bin            (symlink)"@, Role::Dim),
        screen::one("    /sbin → /usr/sbin          (symlink)"@, Role::Dim),
        screen::one("    /lib → /usr/lib            (symlink)"@, Role::Dim),
        screen::one("    /lib64 → /usr/lib64        (symlink)"@, Role::Dim),
    ]
}

/// The line of a mount that a profile adds.
pub open spec fn mount_line(m: MountView, profile: Seq<char>) -> Seq<SpanView> {
    screen::one(
        "    /home/maki/"@ + m.short_name() + "  ←  "@ + m.path + "  ("@ + profiles::usage_label(
            m.usage,
        ) + ")  ["@ + profile + "]"@,
        Role::Plain,
    )
}

/// The lines of the first `n` mounts of a profile. Entries of the search path are left out.
pub open spec fn mount_lines(p: ProfileView, n: int) -> Seq<Seq<SpanView>>
    decreases n,
{
    if n <= 0 {
        seq![]
    } else {
        let before = mount_lines(p, n - 1);
        if p.mounts[n - 1].usage == MountUsage::OnlyPath {
            before
        } else {
            before.push(mount_line(p.mounts[n - 1], p.name))
        }
    }
}

/// The mounts of the first `n` profiles, as far as they are switched on.
pub open spec fn profile_mounts(list: Seq<(ProfileView, bool)>, n: int) -> Seq<Seq<SpanView>>
    decreases n,
{
    if n <= 0 {
        seq![]
    } else {
        let before = profile_mounts(list, n - 1);
        let p = list[n - 1];
        if p.1 {
            before + mount_lines(p.0, p.0.mounts.len() as int)
        } else {
            before
        }
    }
}

/// The line of a host directory that is mounted in the home directory.
pub open spec fn home_line(pair: (Seq<char>, Seq<char>)) -> Seq<SpanView> {
    screen::one("    /home/maki/"@ + pair.1 + "  ←  "@ + pair.0, Role::Plain)
}

/// The host directories that are mounted in the home directory.
pub open spec fn home_lines(pairs: Seq<(Seq<char>, Seq<char>)>) -> Seq<Seq<SpanView>> {
    if pairs.len() == 0 {
        seq![]
    } else {
        seq![screen::blank(), screen::one("  Home directory mounts (rw)"@, Role::Section)]
            + Seq::new(pairs.len(), |i: int| home_line(pairs[i]))
    }
}

/// The line of a host directory that is mounted in the workspace.
pub open spec fn extra_line(pair: (Seq<char>, Seq<char>), workspace: Seq<char>) -> Seq<SpanView> {
    screen::one(
        "    /home/maki/workspace/"@ + workspace + "/"@ + pair.1 + "  ←  "@ + pair.0,
        Role::Plain,
    )
}

/// The host directories that are mounted in the workspace.
pub open spec fn extra_lines(
    pairs: Seq<(Seq<char>, Seq<char>)>,
    workspace: Seq<char>,
) -> Seq<Seq<SpanView>> {
    if pairs.len() == 0 {
        seq![]
    } else {
        seq![screen::blank(), screen::one("  Extra workspace directories (rw)"@, Role::Section)]
            + Seq::new(pairs.len(), |i: int| extra_line(pairs[i], workspace))
    }
}

/// The value of a variable, as it is shown.
pub open spec fn shown_value(value: Seq<char>) -> Seq<char> {
    if value.len() == 0 {
        seq![]
    } else {
        " = \""@ + value + "\""@
    }
}

/// The line of a variable.
pub open spec fn env_line(e: EnvView) -> Seq<SpanView> {
    let name = "    "@ + e.key + shown_value(e.value);
    screen::one(
        if e.description.len() == 0 {
            name
        } else {
            name + "  —  "@ + e.description
        },
        Role::Plain,
    )
}

/// The environment.
pub open spec fn env_lines(entries: Seq<EnvView>) -> Seq<Seq<SpanView>> {
    seq![
        screen::blank(),
        screen::one("  Environment variables (allow list)"@, Role::Section),
    ] + Seq::new(entries.len(), |i: int| env_line(entries[i]))
}

/// What the profiles that are switched on add to the search path.
pub open spec fn path_lines(list: Seq<(ProfileView, bool)>) -> Seq<Seq<SpanView>> {
    let dirs = profiles::path_entries(profiles::all_mounts(enabled_of(list)));
    if dirs.len() == 0 {
        seq![]
    } else {
        seq![
            screen::one(
                "    (extended by active profiles: "@ + text::join_with(dirs, ", "@) + ")"@,
                Role::Dim,
            ),
        ]
    }
}

/// What the sandbox does not see.
pub open spec fn private_lines() -> Seq<Seq<SpanView>> {
    seq![
        screen::blank(),
        screen::one("  Not passed to sandbox (private)"@, Role::Section),
        screen::one(
            "    API keys, SSH tokens, GITHUB_TOKEN, AWS_* — everything not on the allow list above"@,
            Role::Dim,
        ),
    ]
}

/// The whole overview.
pub open spec fn info_lines(info: InfoView, yolo: bool, cursor: Option<int>) -> Seq<
    Seq<SpanView>,
> {
    status_lines(info.enabled) + yolo_lines(info.enabled, yolo) + profiles_section(
        info.profiles,
        cursor,
    ) + layout_lines(info.workspace_dir) + profile_mounts(
        info.profiles,
        info.profiles.len() as int,
    ) + home_lines(info.home_mounts) + extra_lines(info.extra_workspace_dirs, info.workspace_name)
        + env_lines(info.env_entries) + path_lines(info.profiles) + private_lines()
}

/// The overview holds the lines of every section, and no others.
pub proof fn law_overview_has_every_section(
    info: InfoView,
    yolo: bool,
    cursor: Option<int>,
    line: Seq<SpanView>,
)
    ensures
        info_lines(info, yolo, cursor).contains(line) <==> {
            ||| status_lines(info.enabled).contains(line)
            ||| yolo_lines(info.enabled, yolo).contains(line)
            ||| profiles_section(info.profiles, cursor).contains(line)
            ||| layout_lines(info.workspace_dir).contains(line)
            ||| profile_mounts(info.profiles, info.profiles.len() as int).contains(line)
            ||| home_lines(info.home_mounts).contains(line)
            ||| extra_lines(info.extra_workspace_dirs, info.workspace_name).contains(line)
            ||| env_lines(info.env_entries).contains(line)
            ||| path_lines(info.profiles).contains(line)
            ||| private_lines().contains(line)
        },
        info_lines(info, yolo, cursor).len() == status_lines(info.enabled).len() + yolo_lines(
            info.enabled,
            yolo,
        ).len() + profiles_section(info.profiles, cursor).len() + layout_lines(
            info.workspace_dir,
        ).len() + profile_mounts(info.profiles, info.profiles.len() as int).len() + home_lines(
            info.home_mounts,
        ).len() + extra_lines(info.extra_workspace_dirs, info.workspace_name).len() + env_lines(
            info.env_entries,
        ).len() + path_lines(info.profiles).len() + private_lines().len(),
{
    let a = status_lines(info.enabled);
    let b = yolo_lines(info.enabled, yolo);
    let c = profiles_section(info.profiles, cursor);
    let d = layout_lines(info.workspace_dir);
    let e = profile_mounts(info.profiles, info.profiles.len() as int);
    let f = home_lines(info.home_mounts);
    let g = extra_lines(info.extra_workspace_dirs, info.workspace_name);
    let h = env_lines(info.env_entries);
    let i = path_lines(info.profiles);
    let j = private_lines();
    lemma_lines_of_both(a, b, line);
    lemma_lines_of_both(a + b, c, line);
    lemma_lines_of_both(a + b + c, d, line);
    lemma_lines_of_both(a + b + c + d, e, line);
    lemma_lines_of_both(a + b + c + d + e, f, line);
    lemma_lines_of_both(a + b + c + d + e + f, g, line);
    lemma_lines_of_both(a + b + c + d + e + f + g, h, line);
    lemma_lines_of_both(a + b + c + d + e + f + g + h, i, line);
    lemma_lines_of_both(a + b + c + d + e + f + g + h + i, j, line);
}

proof fn lemma_lines_of_both(a: Seq<Seq<SpanView>>, b: Seq<Seq<SpanView>>, line: Seq<SpanView>)
    ensures
        (a + b).contains(line) <==> a.contains(line) || b.contains(line),
{
    if a.contains(line) {
        let k = choose|k: int| 0 <= k < a.len() && a[k] == line;
        assert((a + b)[k] == line);
    }
    if b.contains(line) {
        let k = choose|k: int| 0 <= k < b.len() && b[k] == line;
        assert((a + b)[a.len() + k] == line);
    }
    if (a + b).contains(line) {
        let k = choose|k: int| 0 <= k < (a + b).len() && (a + b)[k] == line;
        if k < a.len() {
            assert(a[k] == line);
        } else {
            assert(b[k - a.len()] == line);
        }
    }
}

/// The overview says whether the sandbox is on, and only then whether permission prompts are
/// skipped.
pub proof fn law_switches_are_shown(enabled: bool, yolo: bool)
    ensures
        status_lines(enabled).len() == 2,
        status_lines(enabled)[1].len() == 1,
        status_lines(true)[1][0].text == "    "@ + "enabled"@,
        status_lines(false)[1][0].text == "    "@ + "disabled"@,
        yolo_lines(false, yolo).len() == 0,
        yolo_lines(true, yolo).len() == 3 && yolo_lines(true, yolo)[2].len() == 4,
        yolo_lines(true, true)[2][1].text == "x"@ && yolo_lines(true, true)[2][3].text == "on"@,
        yolo_lines(true, false)[2][1].text == " "@ && yolo_lines(true, false)[2][3].text
            == "off"@,
{
}

/// The overview says which host directory is the workspace, and what is mounted besides; and
/// that nothing else is passed on.
pub proof fn law_workspace_is_shown(workspace_dir: Seq<char>)
    ensures
        layout_lines(workspace_dir).len() == 10,
        layout_lines(workspace_dir)[2] == seq![
            SpanView {
                text: "    /home/maki/workspace  ←  "@ + workspace_dir + "  (rw)"@,
                role: Role::Plain,
            },
        ],
        forall|other: Seq<char>, i: int|
            0 <= i < 10 && i != 2 ==> #[trigger] layout_lines(other)[i] == layout_lines(
                workspace_dir,
            )[i],
        private_lines().len() == 3,
{
}

/// Every profile has a line with its name and a check box that is ticked exactly where the
/// profile is on; the one at the cursor is marked and shows its mounts below it. There is no
/// other line than these and the heading.
pub proof fn law_each_profile_has_its_line(
    list: Seq<(ProfileView, bool)>,
    cursor: Option<int>,
    i: int,
)
    requires
        0 <= i < list.len(),
    ensures
        ({
            let role = |on: bool|
                if on {
                    Role::Selected
                } else {
                    Role::Plain
                };
            let selected = cursor == Some(i);
            let line = seq![
                SpanView {
                    text: if selected {
                        "  ▸ "@
                    } else {
                        "    "@
                    },
                    role: role(selected),
                },
                SpanView { text: "["@, role: Role::Plain },
                SpanView {
                    text: if list[i].1 {
                        "x"@
                    } else {
                        " "@
                    },
                    role: role(list[i].1),
                },
                SpanView { text: "] "@, role: Role::Plain },
                SpanView { text: list[i].0.name, role: role(selected) },
            ];
            let at = i + if (cursor matches Some(c) && 0 <= c < i) {
                1int
            } else {
                0
            };
            &&& profiles_section(list, cursor)[2 + at] == line
            &&& selected ==> profiles_section(list, cursor)[3 + at] == mounts_line(list[i].0)
            &&& profiles_section(list, cursor).len() == 2 + list.len() + if (cursor matches Some(c)
                && 0 <= c < list.len()) {
                1int
            } else {
                0
            }
        }),
{
    lemma_profile_line(list, cursor, list.len() as int, i);
}

proof fn lemma_profile_line(list: Seq<(ProfileView, bool)>, cursor: Option<int>, n: int, i: int)
    requires
        0 <= i < n <= list.len(),
    ensures
        ({
            let at = i + if (cursor matches Some(c) && 0 <= c < i) {
                1int
            } else {
                0
            };
            let lines = profile_lines(list, cursor, n);
            &&& lines[at] == profile_line(list[i].0.name, list[i].1, cursor == Some(i))
            &&& cursor == Some(i) ==> lines[at + 1] == mounts_line(list[i].0)
            &&& lines.len() == n + if (cursor matches Some(c) && 0 <= c < n) {
                1int
            } else {
                0
            }
        }),
    decreases n,
{
    if n == 1 {
        assert(profile_lines(list, cursor, 0).len() == 0);
    } else if i < n - 1 {
        lemma_profile_line(list, cursor, n - 1, i);
    } else {
        lemma_profile_line(list, cursor, n - 1, n - 2);
    }
}

/// The line with the mounts of a profile names each with its path and its usage, in order,
/// with commas between them.
pub proof fn law_mounts_are_named(p: ProfileView)
    ensures
        mounts_line(p).len() == 1,
        p.mounts.len() > 0 ==> {
            let label = |m: MountView|
                m.path + " ("@ + (match m.usage {
                    MountUsage::Write => "rw"@,
                    MountUsage::ReadOnly => "ro"@,
                    MountUsage::OnlyPath => "on $PATH"@,
                    MountUsage::SymLink => "symlink"@,
                }) + ")"@;
            mounts_line(p)[0].text == "      Mounts: "@ + (label(p.mounts[0]) + p.mounts.skip(
                1,
            ).map_values(|m: MountView| ", "@ + label(m)).flatten())
        },
{
    let labels = Seq::new(p.mounts.len(), |i: int| mount_label(p.mounts[i]));
    text::law_texts_are_joined(labels, ", "@);
    if p.mounts.len() > 0 {
        let label = |m: MountView|
            m.path + " ("@ + (match m.usage {
                MountUsage::Write => "rw"@,
                MountUsage::ReadOnly => "ro"@,
                MountUsage::OnlyPath => "on $PATH"@,
                MountUsage::SymLink => "symlink"@,
            }) + ")"@;
        assert(labels.skip(1).map_values(|part: Seq<char>| ", "@ + part) =~= p.mounts.skip(
            1,
        ).map_values(|m: MountView| ", "@ + label(m)));
    }
}

/// Every mount of a profile that is on has a line with its name in the sandbox, its path, its
/// usage and its profile, unless it is only for the search path.
pub proof fn law_mounts_of_profiles_are_shown(list: Seq<(ProfileView, bool)>, i: int, j: int)
    requires
        0 <= i < list.len(),
        0 <= j < list[i].0.mounts.len(),
        list[i].1,
        list[i].0.mounts[j].usage != MountUsage::OnlyPath,
    ensures
        ({
            let m = list[i].0.mounts[j];
            profile_mounts(list, list.len() as int).contains(
                seq![
                    SpanView {
                        text: "    /home/maki/"@ + m.short_name() + "  ←  "@ + m.path + "  ("@ + (
                        match m.usage {
                            MountUsage::Write => "rw"@,
                            MountUsage::ReadOnly => "ro"@,
                            MountUsage::OnlyPath => "on $PATH"@,
                            MountUsage::SymLink => "symlink"@,
                        }) + ")  ["@ + list[i].0.name + "]"@,
                        role: Role::Plain,
                    },
                ],
            )
        }),
{
    lemma_mount_shown(list, list.len() as int, i, j);
}

/// There are as many of these lines as mounts of the profiles that are on, without those
/// that are only for the search path: a profile that is off shows none.
pub proof fn law_other_mounts_are_not_shown(list: Seq<(ProfileView, bool)>)
    ensures
        profile_mounts(list, list.len() as int).len() == list.fold_left(
            0int,
            |n: int, p: (ProfileView, bool)|
                n + if p.1 {
                    p.0.mounts.filter(|m: MountView| m.usage != MountUsage::OnlyPath).len() as int
                } else {
                    0int
                },
        ),
{
    lemma_mounts_counted(list, list.len() as int);
    assert(list.take(list.len() as int) =~= list);
}

proof fn lemma_mounts_counted(list: Seq<(ProfileView, bool)>, n: int)
    requires
        0 <= n <= list.len(),
    ensures
        profile_mounts(list, n).len() == list.take(n).fold_left(
            0int,
            |n: int, p: (ProfileView, bool)|
                n + if p.1 {
                    p.0.mounts.filter(|m: MountView| m.usage != MountUsage::OnlyPath).len() as int
                } else {
                    0int
                },
        ),
    decreases n,
{
    let more = |n: int, p: (ProfileView, bool)|
        n + if p.1 {
            p.0.mounts.filter(|m: MountView| m.usage != MountUsage::OnlyPath).len() as int
        } else {
            0int
        };
    let part = list.take(n);
    if n > 0 {
        lemma_mounts_counted(list, n - 1);
        assert(part.drop_last() =~= list.take(n - 1));
        assert(part.last() == list[n - 1]);
        assert(part.fold_left(0int, more) == more(
            part.drop_last().fold_left(0int, more),
            part.last(),
        ));
        let p = list[n - 1].0;
        lemma_mount_lines_counted(p, p.mounts.len() as int);
        assert(p.mounts.take(p.mounts.len() as int) =~= p.mounts);
    }
}

proof fn lemma_mount_lines_counted(p: ProfileView, n: int)
    requires
        0 <= n <= p.mounts.len(),
    ensures
        mount_lines(p, n).len() == p.mounts.take(n).filter(
            |m: MountView| m.usage != MountUsage::OnlyPath,
        ).len(),
    decreases n,
{
    reveal(Seq::filter);
    if n > 0 {
        lemma_mount_lines_counted(p, n - 1);
        assert(p.mounts.take(n).drop_last() =~= p.mounts.take(n - 1));
        assert(p.mounts.take(n).last() == p.mounts[n - 1]);
    }
}

proof fn lemma_mount_shown(list: Seq<(ProfileView, bool)>, n: int, i: int, j: int)
    requires
        0 <= i < n <= list.len(),
        0 <= j < list[i].0.mounts.len(),
        list[i].1,
        list[i].0.mounts[j].usage != MountUsage::OnlyPath,
    ensures
        profile_mounts(list, n).contains(mount_line(list[i].0.mounts[j], list[i].0.name)),
    decreases n,
{
    let before = profile_mounts(list, n - 1);
    let after = profile_mounts(list, n);
    let line = mount_line(list[i].0.mounts[j], list[i].0.name);
    if i < n - 1 {
        lemma_mount_shown(list, n - 1, i, j);
        let k = choose|k: int| 0 <= k < before.len() && before[k] == line;
        assert(after[k] == line);
    } else {
        let p = list[i].0;
        let lines = mount_lines(p, p.mounts.len() as int);
        lemma_mount_line_there(p, p.mounts.len() as int, j);
        let k = choose|k: int| 0 <= k < lines.len() && lines[k] == line;
        assert(after[before.len() + k] == line);
    }
}

proof fn lemma_mount_line_there(p: ProfileView, n: int, j: int)
    requires
        0 <= j < n <= p.mounts.len(),
        p.mounts[j].usage != MountUsage::OnlyPath,
    ensures
        mount_lines(p, n).contains(mount_line(p.mounts[j], p.name)),
    decreases n,
{
    let before = mount_lines(p, n - 1);
    let after = mount_lines(p, n);
    let line = mount_line(p.mounts[j], p.name);
    if j < n - 1 {
        lemma_mount_line_there(p, n - 1, j);
        let k = choose|k: int| 0 <= k < before.len() && before[k] == line;
        assert(after[k] == line);
    } else {
        assert(after[before.len() as int] == line);
    }
}

/// Every host directory that is mounted has a line with its place in the sandbox and on the
/// host, below one heading; without any there is no heading either.
pub proof fn law_mounted_directories_are_shown(
    pairs: Seq<(Seq<char>, Seq<char>)>,
    workspace: Seq<char>,
    i: int,
)
    ensures
        pairs.len() == 0 ==> home_lines(pairs).len() == 0 && extra_lines(pairs, workspace).len()
            == 0,
        pairs.len() > 0 ==> home_lines(pairs).len() == pairs.len() + 2 && extra_lines(
            pairs,
            workspace,
        ).len() == pairs.len() + 2,
        0 <= i < pairs.len() ==> home_lines(pairs)[i + 2] == seq![
            SpanView {
                text: "    /home/maki/"@ + pairs[i].1 + "  ←  "@ + pairs[i].0,
                role: Role::Plain,
            },
        ],
        0 <= i < pairs.len() ==> extra_lines(pairs, workspace)[i + 2] == seq![
            SpanView {
                text: "    /home/maki/workspace/"@ + workspace + "/"@ + pairs[i].1 + "  ←  "@
                    + pairs[i].0,
                role: Role::Plain,
            },
        ],
{
}

/// Every variable has a line with its name, with its value in quotes where it has one, and
/// with its description where it has one.
pub proof fn law_variables_are_shown(entries: Seq<EnvView>, i: int)
    requires
        0 <= i < entries.len(),
    ensures
        env_lines(entries).len() == entries.len() + 2,
        env_lines(entries)[i + 2].len() == 1,
        ({
            let e = entries[i];
            let text = env_lines(entries)[i + 2][0].text;
            &&& e.value.len() == 0 && e.description.len() == 0 ==> text == "    "@ + e.key
            &&& e.value.len() > 0 && e.description.len() == 0 ==> text == "    "@ + e.key + (
            " = \""@ + e.value + "\""@)
            &&& e.value.len() == 0 && e.description.len() > 0 ==> text == "    "@ + e.key + "  —  "@
                + e.description
            &&& e.value.len() > 0 && e.description.len() > 0 ==> text == "    "@ + e.key + (
            " = \""@ + e.value + "\""@) + "  —  "@ + e.description
        }),
{
    let e = entries[i];
    assert("    "@ + e.key + Seq::<char>::empty() =~= "    "@ + e.key);
}

/// The overview says what the profiles that are on add to the search path, in order, and says
/// nothing where they add nothing.
pub proof fn law_added_path_is_shown(list: Seq<(ProfileView, bool)>)
    ensures
        ({
            let dirs = list.filter(|p: (ProfileView, bool)| p.1).map_values(
                |p: (ProfileView, bool)| p.0.mounts,
            ).flatten().filter(|m: MountView| m.usage == MountUsage::OnlyPath).map_values(
                |m: MountView| m.inner_path(),
            );
            &&& dirs.len() == 0 ==> path_lines(list).len() == 0
            &&& dirs.len() > 0 ==> path_lines(list).len() == 1 && path_lines(list)[0].len() == 1
                && path_lines(list)[0][0].text == "    (extended by active profiles: "@ + (dirs[0]
                + dirs.skip(1).map_values(|d: Seq<char>| ", "@ + d).flatten()) + ")"@
        }),
{
    law_switches_pick_profiles(list);
    let on = list.filter(|p: (ProfileView, bool)| p.1);
    let dirs = profiles::path_entries(profiles::all_mounts(enabled_of(list)));
    profiles::law_configuration_is_complete(
        enabled_of(list),
        seq![],
        seq![],
        seq![],
        seq![],
        None,
    );
    assert(enabled_of(list).map_values(|p: ProfileView| p.mounts) =~= on.map_values(
        |p: (ProfileView, bool)| p.0.mounts,
    ));
    text::law_texts_are_joined(dirs, ", "@);
}

/// Every section stands below its heading, behind an empty line; what every sandbox holds is
/// named line by line.
pub proof fn law_sections_have_headings(
    workspace_dir: Seq<char>,
    list: Seq<(ProfileView, bool)>,
    cursor: Option<int>,
    pairs: Seq<(Seq<char>, Seq<char>)>,
    workspace: Seq<char>,
    entries: Seq<EnvView>,
    yolo: bool,
)
    ensures
        ({
            let heading = |text: Seq<char>| seq![SpanView { text, role: Role::Section }];
            let note = |text: Seq<char>| seq![SpanView { text, role: Role::Dim }];
            let layout = layout_lines(workspace_dir);
            &&& status_lines(yolo)[0] == heading("  Status (press s to toggle)"@)
            &&& yolo_lines(true, yolo)[0].len() == 0 && yolo_lines(true, yolo)[1] == heading(
                "  YOLO (press y to toggle) — skip permission prompts for all tools"@,
            )
            &&& list.len() == 0 ==> profiles_section(list, cursor).len() == 0
            &&& list.len() > 0 ==> profiles_section(list, cursor)[0].len() == 0
                && profiles_section(list, cursor)[1] == heading(
                "  Profiles (navigate with ↑/↓, toggle with Enter/Space)"@,
            )
            &&& pairs.len() > 0 ==> home_lines(pairs)[0].len() == 0 && home_lines(pairs)[1]
                == heading("  Home directory mounts (rw)"@)
            &&& pairs.len() > 0 ==> extra_lines(pairs, workspace)[0].len() == 0 && extra_lines(
                pairs,
                workspace,
            )[1] == heading("  Extra workspace directories (rw)"@)
            &&& env_lines(entries)[0].len() == 0 && env_lines(entries)[1] == heading(
                "  Environment variables (allow list)"@,
            )
            &&& private_lines()[0].len() == 0 && private_lines()[1] == heading(
                "  Not passed to sandbox (private)"@,
            )
            &&& private_lines()[2] == note(
                "    API keys, SSH tokens, GITHUB_TOKEN, AWS_* — everything not on the allow list above"@,
            )
            &&& layout[0].len() == 0 && layout[1] == heading("  Filesystem layout"@)
            &&& layout[3] == note("    /usr                       (ro, system)"@)
            &&& layout[4] == note("    /etc                       (tmpfs, empty)"@)
            &&& layout[5] == note("    /tmp                       (tmpfs, scratch)"@)
            &&& layout[6] == note("    /bin → /usr/bin            (symlink)"@)
            &&& layout[7] == note("    /sbin → /usr/sbin          (symlink)"@)
            &&& layout[8] == note("    /lib → /usr/lib            (symlink)"@)
            &&& layout[9] == note("    /lib64 → /usr/lib64        (symlink)"@)
        }),
{
}

// ── Writing the lines ──

fn mark(on: bool) -> (r: Role)
    ensures
        r == marked(on),
{
    if on {
        Role::Selected
    } else {
        Role::Plain
    }
}

fn push_status(lines: &mut Vec<Line>, enabled: bool)
    ensures
        screen::line_views(final(lines)@) == screen::line_views(old(lines)@) + status_lines(
            enabled,
        ),
{
    let ghost before = screen::line_views(lines@);
    push_text(lines, "  Status (press s to toggle)", Role::Section);
    let status = if enabled {
        "enabled"
    } else {
        "disabled"
    };
    push_text(lines, concat("    ", status).as_str(), Role::Plain);
    assert(screen::line_views(lines@) =~= before + status_lines(enabled));
}

fn push_yolo(lines: &mut Vec<Line>, enabled: bool, yolo: bool)
    ensures
        screen::line_views(final(lines)@) == screen::line_views(old(lines)@) + yolo_lines(
            enabled,
            yolo,
        ),
{
    let ghost before = screen::line_views(lines@);
    if enabled {
        push_blank(lines);
        push_text(
            lines,
            "  YOLO (press y to toggle) — skip permission prompts for all tools",
            Role::Section,
        );
        let mut spans: Vec<Span> = Vec::new();
        spans.push(Span::new("    [", Role::Plain));
        spans.push(
            Span::new(
                if yolo {
                    "x"
                } else {
                    " "
                },
                mark(yolo),
            ),
        );
        spans.push(Span::new("] ", Role::Plain));
        spans.push(
            Span::new(
                if yolo {
                    "on"
                } else {
                    "off"
                },
                mark(yolo),
            ),
        );
        assert(Seq::new(spans@.len(), |i: int| spans@[i]@) =~= yolo_lines(enabled, yolo)[2]);
        push_spans(lines, spans);
    }
    assert(screen::line_views(lines@) =~= before + yolo_lines(enabled, yolo));
}

fn push_profile(lines: &mut Vec<Line>, p: &SandboxProfile, enabled: bool, selected: bool)
    ensures
        screen::line_views(final(lines)@) == screen::line_views(old(lines)@) + seq![
            profile_line(p.name@, enabled, selected),
        ] + (if selected {
            seq![mounts_line(p@)]
        } else {
            seq![]
        }),
{
    let ghost before = screen::line_views(lines@);
    let mut spans: Vec<Span> = Vec::new();
    spans.push(
        Span::new(
            if selected {
                "  ▸ "
            } else {
                "    "
            },
            mark(selected),
        ),
    );
    spans.push(Span::new("[", Role::Plain));
    spans.push(
        Span::new(
            if enabled {
                "x"
            } else {
                " "
            },
            mark(enabled),
        ),
    );
    spans.push(Span::new("] ", Role::Plain));
    spans.push(Span::new(p.name.as_str(), mark(selected)));
    assert(Seq::new(spans@.len(), |i: int| spans@[i]@) =~= profile_line(
        p.name@,
        enabled,
        selected,
    ));
    push_spans(lines, spans);
    if selected {
        let mut labels: Vec<String> = Vec::new();
        for i in 0..p.mounts.len()
            invariant
                labels@.len() == i,
                forall|k: int| 0 <= k < i ==> (#[trigger] labels@[k])@ == mount_label(p@.mounts[k]),
        {
            let mut s = p.mounts[i].path.clone();
            s.append(" (");
            s.append(p.mounts[i].usage.label());
            s.append(")");
            labels.push(s);
        }
        assert(text::views(labels@) =~= Seq::new(
            p@.mounts.len(),
            |i: int| mount_label(p@.mounts[i]),
        ));
        let list = join_list(labels.as_slice(), ", ");
        push_text(lines, concat("      Mounts: ", list.as_str()).as_str(), Role::Dim);
    }
    assert(screen::line_views(lines@) =~= before + seq![profile_line(p.name@, enabled, selected)]
        + (if selected {
        seq![mounts_line(p@)]
    } else {
        seq![]
    }));
}

/// The place of a cursor, as a whole number.
pub open spec fn place(cursor: Option<usize>) -> Option<int> {
    match cursor {
        Some(c) => Some(c as int),
        None => None,
    }
}

fn push_profiles(lines: &mut Vec<Line>, list: &[(SandboxProfile, bool)], cursor: Option<usize>)
    ensures
        screen::line_views(final(lines)@) == screen::line_views(old(lines)@) + profiles_section(
            switch_views(list@),
            place(cursor),
        ),
{
    let ghost before = screen::line_views(lines@);
    let ghost all = switch_views(list@);
    if list.len() > 0 {
        push_blank(lines);
        push_text(
            lines,
            "  Profiles (navigate with ↑/↓, toggle with Enter/Space)",
            Role::Section,
        );
        let ghost head = screen::line_views(lines@);
        assert(head + profile_lines(all, place(cursor), 0) =~= head);
        for i in 0..list.len()
            invariant
                all == switch_views(list@),
                screen::line_views(lines@) == head + profile_lines(all, place(cursor), i as int),
        {
            let selected = match cursor {
                Some(c) => c == i,
                None => false,
            };
            let ghost here = screen::line_views(lines@);
            push_profile(lines, &list[i].0, list[i].1, selected);
            assert(screen::line_views(lines@) =~= head + profile_lines(
                all,
                place(cursor),
                i + 1,
            ));
        }
    }
    assert(screen::line_views(lines@) =~= before + profiles_section(all, place(cursor)));
}

fn push_layout(lines: &mut Vec<Line>, workspace_dir: &str)
    ensures
        screen::line_views(final(lines)@) == screen::line_views(old(lines)@) + layout_lines(
            workspace_dir@,
        ),
{
    let ghost before = screen::line_views(lines@);
    push_blank(lines);
    push_text(lines, "  Filesystem layout", Role::Section);
    let mut s = concat("    /home/maki/workspace  ←  ", workspace_dir);
    s.append("  (rw)");
    push_text(lines, s.as_str(), Role::Plain);
    push_text(lines, "    /usr                       (ro, system)", Role::Dim);
    push_text(lines, "    /etc                       (tmpfs, empty)", Role::Dim);
    push_text(lines, "    /tmp                       (tmpfs, scratch)", Role::Dim);
    push_text(lines, "    /bin → /usr/bin            (symlink)", Role::Dim);
    push_text(lines, "    /sbin → /usr/sbin          (symlink)", Role::Dim);
    push_text(lines, "    /lib → /usr/lib            (symlink)", Role::Dim);
    push_text(lines, "    /lib64 → /usr/lib64        (symlink)", Role::Dim);
    assert(screen::line_views(lines@) =~= before + layout_lines(workspace_dir@));
}

fn push_mount(lines: &mut Vec<Line>, m: &ProfileMount, profile: &str)
    ensures
        screen::line_views(final(lines)@) == screen::line_views(old(lines)@) + seq![
            mount_line(m@, profile@),
        ],
{
    let mut s = concat("    /home/maki/", m.dir_name().as_str());
    s.append("  ←  ");
    s.append(m.path.as_str());
    s.append("  (");
    s.append(m.usage.label());
    s.append(")  [");
    s.append(profile);
    s.append("]");
    push_text(lines, s.as_str(), Role::Plain);
}

fn push_mounts(lines: &mut Vec<Line>, p: &SandboxProfile)
    ensures
        screen::line_views(final(lines)@) == screen::line_views(old(lines)@) + mount_lines(
            p@,
            p@.mounts.len() as int,
        ),
{
    let ghost before = screen::line_views(lines@);
    assert(before + mount_lines(p@, 0) =~= before);
    for i in 0..p.mounts.len()
        invariant
            screen::line_views(lines@) == before + mount_lines(p@, i as int),
    {
        if p.mounts[i].usage != MountUsage::OnlyPath {
            push_mount(lines, &p.mounts[i], p.name.as_str());
        }
        assert(screen::line_views(lines@) =~= before + mount_lines(p@, i + 1));
    }
}

fn push_profile_mounts(lines: &mut Vec<Line>, list: &[(SandboxProfile, bool)])
    ensures
        screen::line_views(final(lines)@) == screen::line_views(old(lines)@) + profile_mounts(
            switch_views(list@),
            list@.len() as int,
        ),
{
    let ghost before = screen::line_views(lines@);
    let ghost all = switch_views(list@);
    assert(before + profile_mounts(all, 0) =~= before);
    for i in 0..list.len()
        invariant
            all == switch_views(list@),
            screen::line_views(lines@) == before + profile_mounts(all, i as int),
    {
        if list[i].1 {
            push_mounts(lines, &list[i].0);
        }
        assert(screen::line_views(lines@) =~= before + profile_mounts(all, i + 1));
    }
}

fn push_home(lines: &mut Vec<Line>, pairs: &[(String, String)])
    ensures
        screen::line_views(final(lines)@) == screen::line_views(old(lines)@) + home_lines(
            namespace::pair_views(pairs@),
        ),
{
    let ghost before = screen::line_views(lines@);
    let ghost all = namespace::pair_views(pairs@);
    if pairs.len() > 0 {
        push_blank(lines);
        push_text(lines, "  Home directory mounts (rw)", Role::Section);
        let ghost head = screen::line_views(lines@);
        for i in 0..pairs.len()
            invariant
                all == namespace::pair_views(pairs@),
                screen::line_views(lines@) == head + Seq::new(
                    i as nat,
                    |k: int| home_line(all[k]),
                ),
        {
            let mut s = concat("    /home/maki/", pairs[i].1.as_str());
            s.append("  ←  ");
            s.append(pairs[i].0.as_str());
            push_text(lines, s.as_str(), Role::Plain);
            assert(screen::line_views(lines@) =~= head + Seq::new(
                (i + 1) as nat,
                |k: int| home_line(all[k]),
            ));
        }
    }
    assert(screen::line_views(lines@) =~= before + home_lines(all));
}

fn push_extra(lines: &mut Vec<Line>, pairs: &[(String, String)], workspace: &str)
    ensures
        screen::line_views(final(lines)@) == screen::line_views(old(lines)@) + extra_lines(
            namespace::pair_views(pairs@),
            workspace@,
        ),
{
    let ghost before = screen::line_views(lines@);
    let ghost all = namespace::pair_views(pairs@);
    if pairs.len() > 0 {
        push_blank(lines);
        push_text(lines, "  Extra workspace directories (rw)", Role::Section);
        let ghost head = screen::line_views(lines@);
        for i in 0..pairs.len()
            invariant
                all == namespace::pair_views(pairs@),
                screen::line_views(lines@) == head + Seq::new(
                    i as nat,
                    |k: int| extra_line(all[k], workspace@),
                ),
        {
            let mut s = concat("    /home/maki/workspace/", workspace);
            s.append("/");
            s.append(pairs[i].1.as_str());
            s.append("  ←  ");
            s.append(pairs[i].0.as_str());
            push_text(lines, s.as_str(), Role::Plain);
            assert(screen::line_views(lines@) =~= head + Seq::new(
                (i + 1) as nat,
                |k: int| extra_line(all[k], workspace@),
            ));
        }
    }
    assert(screen::line_views(lines@) =~= before + extra_lines(all, workspace@));
}

/// Whether a text has no characters.
pub fn no_chars(s: &str) -> (r: bool)
    ensures
        r == (s@.len() == 0),
{
    text::chars_of(s).len() == 0
}

fn push_env(lines: &mut Vec<Line>, entries: &[EnvEntry])
    ensures
        screen::line_views(final(lines)@) == screen::line_views(old(lines)@) + env_lines(
            namespace::env_views(entries@),
        ),
{
    let ghost before = screen::line_views(lines@);
    let ghost all = namespace::env_views(entries@);
    push_blank(lines);
    push_text(lines, "  Environment variables (allow list)", Role::Section);
    let ghost head = screen::line_views(lines@);
    for i in 0..entries.len()
        invariant
            all == namespace::env_views(entries@),
            screen::line_views(lines@) == head + Seq::new(i as nat, |k: int| env_line(all[k])),
    {
        let e = &entries[i];
        let mut s = concat("    ", e.key.as_str());
        if !no_chars(e.value.as_str()) {
            let mut v = concat(" = \"", e.value.as_str());
            v.append("\"");
            s.append(v.as_str());
        } else {
            assert(s@ =~= "    "@ + e.key@ + shown_value(e.value@));
        }
        if !no_chars(e.description.as_str()) {
            s.append("  —  ");
            s.append(e.description.as_str());
        }
        push_text(lines, s.as_str(), Role::Plain);
        assert(screen::line_views(lines@) =~= head + Seq::new(
            (i + 1) as nat,
            |k: int| env_line(all[k]),
        ));
    }
    assert(screen::line_views(lines@) =~= before + env_lines(all));
}

/// Copies of the profiles that are switched on.
pub fn enabled_profiles(list: &[(SandboxProfile, bool)]) -> (out: Vec<SandboxProfile>)
    ensures
        profiles::profile_views(out@) == enabled_of(switch_views(list@)),
{
    let ghost all = switch_views(list@);
    let mut out: Vec<SandboxProfile> = Vec::new();
    assert(all.take(0) =~= seq![]);
    assert(profiles::profile_views(out@) =~= enabled_of(all.take(0)));
    for i in 0..list.len()
        invariant
            all == switch_views(list@),
            profiles::profile_views(out@) == enabled_of(all.take(i as int)),
    {
        proof {
            assert(all.take(i + 1).drop_last() =~= all.take(i as int));
            assert(all.take(i + 1).last() == all[i as int]);
        }
        if list[i].1 {
            let ghost before = profiles::profile_views(out@);
            out.push(list[i].0.copy());
            assert(profiles::profile_views(out@) =~= before.push(all[i as int].0));
        }
    }
    assert(all.take(all.len() as int) =~= all);
    out
}

fn push_path(lines: &mut Vec<Line>, list: &[(SandboxProfile, bool)])
    ensures
        screen::line_views(final(lines)@) == screen::line_views(old(lines)@) + path_lines(
            switch_views(list@),
        ),
{
    let ghost before = screen::line_views(lines@);
    let dirs = profile_path_dirs(enabled_profiles(list).as_slice());
    if dirs.len() > 0 {
        let mut s = concat(
            "    (extended by active profiles: ",
            join_list(dirs.as_slice(), ", ").as_str(),
        );
        s.append(")");
        push_text(lines, s.as_str(), Role::Dim);
    }
    assert(text::views(dirs@).len() == dirs@.len());
    assert(screen::line_views(lines@) =~= before + path_lines(switch_views(list@)));
}

fn push_private(lines: &mut Vec<Line>)
    ensures
        screen::line_views(final(lines)@) == screen::line_views(old(lines)@) + private_lines(),
{
    let ghost before = screen::line_views(lines@);
    push_blank(lines);
    push_text(lines, "  Not passed to sandbox (private)", Role::Section);
    push_text(
        lines,
        "    API keys, SSH tokens, GITHUB_TOKEN, AWS_* — everything not on the allow list above",
        Role::Dim,
    );
    assert(screen::line_views(lines@) =~= before + private_lines());
}

/// Writes the overview.
pub fn push_info(lines: &mut Vec<Line>, info: &SandboxInfo, yolo: bool, cursor: Option<usize>)
    ensures
        screen::line_views(final(lines)@) == screen::line_views(old(lines)@) + info_lines(
            info@,
            yolo,
            place(cursor),
        ),
{
    let ghost before = screen::line_views(lines@);
    push_status(lines, info.enabled);
    push_yolo(lines, info.enabled, yolo);
    push_profiles(lines, info.profiles.as_slice(), cursor);
    push_layout(lines, info.workspace_dir.as_str());
    push_profile_mounts(lines, info.profiles.as_slice());
    push_home(lines, info.home_mounts.as_slice());
    push_extra(lines, info.extra_workspace_dirs.as_slice(), info.workspace_name.as_str());
    push_env(lines, info.env_entries.as_slice());
    push_path(lines, info.profiles.as_slice());
    push_private(lines);
    assert(screen::line_views(lines@) =~= before + info_lines(info@, yolo, place(cursor)));
}

} // verus!
