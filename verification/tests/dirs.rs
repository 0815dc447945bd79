use rbw::dirs::{
    agent_stderr_file, agent_stdout_file, cache_dir, config_dir, config_file,
    create_dir_all_with_permissions, data_dir, db_file, device_id_file, dirs_from, make_all,
    pid_file, profile, project_dirs, runtime_dir, socket_file, ssh_agent_socket_file, DirStep, Dirs,
    ProjectDirs,
};
use rbw::error::Error;

fn dirs(runtime: Option<&str>) -> Dirs {
    Dirs {
        project: ProjectDirs {
            config_dir: b"/home/me/.config/rbw".to_vec(),
            cache_dir: b"/home/me/.cache/rbw".to_vec(),
            data_dir: b"/home/me/.local/share/rbw".to_vec(),
            runtime_dir: runtime.map(|dir| dir.as_bytes().to_vec()),
        },
        temp_dir: b"/tmp".to_vec(),
        profile: "rbw".to_string(),
        uid: 1000,
    }
}

fn text(path: Vec<u8>) -> String {
    String::from_utf8(path).unwrap()
}

#[test]
fn profile_is_selected() {
    assert_eq!(profile(None), "rbw");
    assert_eq!(profile(Some("")), "rbw");
    assert_eq!(profile(Some("work")), "rbw-work");
}

#[test]
fn files_stand_in_their_directories() {
    let dirs = dirs(Some("/run/user/1000/rbw"));
    assert_eq!(text(config_file(&dirs)), "/home/me/.config/rbw/config.json");
    assert_eq!(text(pid_file(&dirs)), "/run/user/1000/rbw/pidfile");
    assert_eq!(text(agent_stdout_file(&dirs)), "/home/me/.local/share/rbw/agent.out");
    assert_eq!(text(agent_stderr_file(&dirs)), "/home/me/.local/share/rbw/agent.err");
    assert_eq!(text(device_id_file(&dirs)), "/home/me/.local/share/rbw/device_id");
    assert_eq!(text(socket_file(&dirs)), "/run/user/1000/rbw/socket");
    assert_eq!(
        text(ssh_agent_socket_file(&dirs)),
        "/run/user/1000/rbw/ssh-agent-socket"
    );
    assert_eq!(text(config_dir(&dirs)), "/home/me/.config/rbw");
    assert_eq!(text(cache_dir(&dirs)), "/home/me/.cache/rbw");
    assert_eq!(text(data_dir(&dirs)), "/home/me/.local/share/rbw");
}

#[test]
fn runtime_directory_falls_back_to_the_temporary_one() {
    assert_eq!(text(runtime_dir(&dirs(None))), "/tmp/rbw-1000");
    assert_eq!(text(socket_file(&dirs(None))), "/tmp/rbw-1000/socket");
}

#[test]
fn database_is_named_by_server_and_account() {
    assert_eq!(
        text(db_file(&dirs(None), "https://h:1/x%y", "me@example.org")),
        "/home/me/.cache/rbw/https%3A%2F%2Fh%3A1%2Fx%25y:me@example.org.json"
    );
    assert_eq!(
        text(db_file(&dirs(None), "a b\u{e9}\u{1}", "e")),
        "/home/me/.cache/rbw/a b%C3%A9%01:e.json"
    );
}

#[test]
fn accounts_have_their_own_databases() {
    assert_ne!(
        db_file(&dirs(None), "a:b", "c@d"),
        db_file(&dirs(None), "a", "b:c@d")
    );
}

#[test]
fn directories_are_made_private() {
    let create = |path: &str| DirStep::Create {
        path: path.as_bytes().to_vec(),
        mode: 0o700,
    };
    let set = |path: &str| DirStep::SetMode {
        path: path.as_bytes().to_vec(),
        mode: 0o700,
    };
    assert_eq!(
        create_dir_all_with_permissions(b"/x", 0o700),
        [create("/x"), set("/x")]
    );
    assert_eq!(
        make_all(&dirs(None)),
        [
            create("/home/me/.cache/rbw"),
            set("/home/me/.cache/rbw"),
            create("/tmp/rbw-1000"),
            set("/tmp/rbw-1000"),
            create("/home/me/.local/share/rbw"),
            set("/home/me/.local/share/rbw"),
        ]
    );
}

#[test]
fn failed_step_names_its_directory() {
    for step in create_dir_all_with_permissions(b"/x", 0o700) {
        assert_eq!(
            step.failed("denied".to_string()),
            Error::CreateDirectory {
                file: b"/x".to_vec(),
                message: "denied".to_string(),
            }
        );
    }
}

#[test]
fn missing_directories_are_an_error() {
    assert_eq!(
        dirs_from(None, b"/tmp".to_vec(), "rbw".to_string(), 0),
        Err(Error::FailedToFindDataDirectory)
    );
}

#[test]
fn platform_directories_carry_the_profile() {
    if let Ok(dirs) = project_dirs(Some("work"), b"/tmp".to_vec()) {
        assert_eq!(dirs.profile, "rbw-work");
        assert!(dirs.project.config_dir.ends_with(b"rbw-work"));
        assert!(dirs.project.cache_dir.ends_with(b"rbw-work"));
        assert!(dirs.project.data_dir.ends_with(b"rbw-work"));
    }
}
