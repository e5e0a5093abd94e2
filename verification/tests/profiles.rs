use maki_sandbox::namespace::NamespaceConfig;
use maki_sandbox::profiles::{
    build_namespace_config, builtin_profiles, profile_path_dirs, MountUsage, ProfileMount,
    SandboxProfile,
};

const SANDBOX_HOME: &str = "/home/maki";

#[test]
fn dir_name_strips_tilde_prefix() {
    for (input, expected) in [
        ("~/.cargo", ".cargo"),
        ("~/go", "go"),
        ("~/.npm/bin", ".npm/bin"),
    ] {
        let mount = ProfileMount::rw(input);
        assert_eq!(mount.dir_name(), expected);
    }
}

#[test]
fn dir_name_passthrough_without_tilde() {
    for input in ["/usr/local", "relative/path"] {
        let mount = ProfileMount::rw(input);
        assert_eq!(mount.dir_name(), input);
    }
}

#[test]
fn sandbox_internal_path_maps_tilde() {
    for (input, expected) in [
        ("~/.cargo", "/home/maki/.cargo"),
        ("~/go/bin", "/home/maki/go/bin"),
        ("~/.npm/bin", "/home/maki/.npm/bin"),
    ] {
        let mount = ProfileMount::rw(input);
        assert_eq!(mount.sandbox_internal_path(), expected);
    }
}

#[test]
fn sandbox_internal_path_passthrough_without_tilde() {
    for input in ["/usr/local", "relative"] {
        let mount = ProfileMount::rw(input);
        assert_eq!(mount.sandbox_internal_path(), input);
    }
}

#[test]
fn resolved_host_path_expands_to_home() {
    let home = Some("/home/user");
    assert_eq!(
        ProfileMount::rw("~/.cargo").resolved_host_path(home),
        "/home/user/.cargo"
    );
    assert_eq!(
        ProfileMount::rw("~/go/bin").resolved_host_path(home),
        "/home/user/go/bin"
    );
}

#[test]
fn resolved_host_path_passthrough_without_tilde() {
    let home = Some("/home/user");
    assert_eq!(
        ProfileMount::rw("/usr/local").resolved_host_path(home),
        "/usr/local"
    );
    assert_eq!(
        ProfileMount::rw("relative").resolved_host_path(home),
        "relative"
    );
}

#[test]
fn resolved_host_path_without_home_keeps_tilde() {
    assert_eq!(
        ProfileMount::rw("~/.cargo").resolved_host_path(None),
        "~/.cargo"
    );
    assert_eq!(
        ProfileMount::rw("~//etc").resolved_host_path(Some("/h")),
        "/etc"
    );
    assert_eq!(
        ProfileMount::rw("~/a").resolved_host_path(Some("/h/")),
        "/h/a"
    );
}

#[test]
fn builtin_profiles_have_expected_names() {
    let profiles = builtin_profiles();
    let names: Vec<&str> = profiles.iter().map(|p| p.name.as_str()).collect();
    assert_eq!(names, ["rust", "java", "node", "go"]);
}

#[test]
fn builtin_profiles_rust_has_cargo_mounts() {
    let profiles = builtin_profiles();
    let rust = profiles.into_iter().find(|p| p.name == "rust").unwrap();
    assert_eq!(rust.mounts.len(), 3);
    assert_eq!(rust.mounts[0].path, "~/.cargo");
    assert_eq!(rust.mounts[0].usage, MountUsage::Write);
    assert_eq!(rust.mounts[1].path, "~/.cargo/bin");
    assert_eq!(rust.mounts[1].usage, MountUsage::OnlyPath);
    assert_eq!(rust.mounts[2].path, "~/.rustup");
    assert_eq!(rust.mounts[2].usage, MountUsage::ReadOnly);
}

#[test]
fn mount_usage_label() {
    assert_eq!(MountUsage::Write.label(), "rw");
    assert_eq!(MountUsage::ReadOnly.label(), "ro");
    assert_eq!(MountUsage::OnlyPath.label(), "on $PATH");
}

#[test]
fn build_namespace_config_enabled_profiles() {
    let profiles = builtin_profiles();
    let rust: Vec<SandboxProfile> = profiles.into_iter().filter(|p| p.name == "rust").collect();
    let config = build_namespace_config(
        &rust,
        "/workspace".into(),
        "test".into(),
        vec![],
        vec![],
        Some("/home/user"),
    );
    assert_eq!(config.home_mounts.len(), 1);
    assert_eq!(config.home_mounts[0].1, ".cargo");
    assert_eq!(config.readonly_mounts.len(), 1);
    assert_eq!(config.readonly_mounts[0].1, ".rustup");
    assert_eq!(config.path_dirs.len(), 1);
    assert_eq!(config.path_dirs[0], format!("{SANDBOX_HOME}/.cargo/bin"));
    assert_eq!(config.workspace_dir, "/workspace");
}

#[test]
fn build_namespace_config_multiple_profiles() {
    let profiles = builtin_profiles();
    let selected: Vec<SandboxProfile> = profiles
        .into_iter()
        .filter(|p| p.name == "rust" || p.name == "node")
        .collect();
    let config = build_namespace_config(
        &selected,
        "/ws".into(),
        "ws".into(),
        vec![],
        vec![],
        Some("/home/user"),
    );
    // Rust: ~/.cargo (Write), ~/.cargo/bin (OnlyPath), ~/.rustup (ReadOnly)
    // Node: ~/.npm (Write), ~/.yarn (Write), ~/.npm/bin (OnlyPath)
    assert_eq!(config.home_mounts.len(), 3); // .cargo, .npm, .yarn
    assert_eq!(config.readonly_mounts.len(), 1); // .rustup
    assert_eq!(config.path_dirs.len(), 2); // .cargo/bin, .npm/bin
}

#[test]
fn build_namespace_config_with_extra_mounts() {
    let config = build_namespace_config(
        &[],
        "/ws".into(),
        "ws".into(),
        vec![("/host/dir".into(), "dir".into())],
        vec![],
        Some("/home/user"),
    );
    assert_eq!(config.home_mounts.len(), 1);
    assert_eq!(config.home_mounts[0].0, "/host/dir");
    assert_eq!(config.home_mounts[0].1, "dir");
}

#[test]
fn every_mount_counts_once() {
    let profile = SandboxProfile {
        name: "p".into(),
        mounts: vec![
            ProfileMount::rw("~/w"),
            ProfileMount::read_only("/ro"),
            ProfileMount::only_path("~/bin"),
            ProfileMount {
                path: "/etc/localtime".into(),
                usage: MountUsage::SymLink,
            },
        ],
    };
    let list = vec![profile];
    let config = build_namespace_config(
        &list,
        "/ws".into(),
        "ws".into(),
        vec![],
        vec![("/h".into(), "x".into())],
        Some("/root"),
    );
    assert_eq!(config.home_mounts, vec![("/root/w".into(), "w".into())]);
    assert_eq!(config.readonly_mounts, vec![("/ro".into(), "/ro".into())]);
    assert_eq!(config.path_dirs, vec!["/home/maki/bin".to_string()]);
    assert_eq!(
        config.symlinks,
        vec![("/etc/localtime".into(), "/etc/localtime".into())]
    );
    assert_eq!(config.extra_workspace_dirs, vec![("/h".into(), "x".into())]);
    assert_eq!(profile_path_dirs(&list), vec!["/home/maki/bin".to_string()]);
    assert_eq!(MountUsage::SymLink.label(), "symlink");
}

#[test]
fn environment_holds_only_what_is_allowed() {
    let config = NamespaceConfig {
        allowed_env: vec!["MY_VAR".into(), "PATH".into()],
        workspace_dir: "/ws".into(),
        workspace_name: "ws".into(),
        home_mounts: vec![],
        readonly_mounts: vec![],
        path_dirs: vec!["/home/maki/.cargo/bin".into()],
        extra_workspace_dirs: vec![],
        symlinks: vec![],
    };
    let host: Vec<(String, String)> = vec![
        ("PATH".into(), "/evil".into()),
        ("HOME".into(), "/home/user".into()),
        ("GITHUB_TOKEN".into(), "t".into()),
        ("LANG".into(), "C".into()),
        ("LC_ALL".into(), "de".into()),
        ("MY_VAR".into(), "1".into()),
        ("RUST_LOG".into(), "info".into()),
    ];
    let env = config.effective_env(&host);
    let shown: Vec<(&str, &str)> = env
        .iter()
        .map(|e| (e.key.as_str(), e.value.as_str()))
        .collect();
    assert_eq!(
        shown,
        vec![
            ("PATH", "/usr/bin:/usr/local/bin:/home/maki/.cargo/bin"),
            ("HOME", "/home/maki"),
            ("USER", "maki"),
            ("LANG", "C"),
            ("LC_ALL", "de"),
            ("MY_VAR", "1"),
            ("RUST_LOG", "info"),
        ]
    );
}
