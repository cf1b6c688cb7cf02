use vume::cli::{
    confirms, created_display, process_list_command, process_logs_command, process_start_commands,
    process_stop_commands, process_unit, sanitize_process_name, ssh_args, NameError,
};

#[test]
fn process_names() {
    assert_eq!(sanitize_process_name("web-server_2"), Ok("web-server_2"));
    assert_eq!(sanitize_process_name(""), Err(NameError::Empty));
    assert_eq!(sanitize_process_name("1st"), Err(NameError::StartsWithDigit));
    assert_eq!(sanitize_process_name("a b"), Err(NameError::InvalidCharacter));
    assert_eq!(sanitize_process_name("x;rm"), Err(NameError::InvalidCharacter));
    assert_eq!(sanitize_process_name("café"), Err(NameError::InvalidCharacter));
    assert_eq!(sanitize_process_name("-x"), Ok("-x"));
}

#[test]
fn unit_file() {
    assert_eq!(
        process_unit("srv", "/root", "python3 -m http.server", false),
        "[Unit]\nDescription=srv\n\n[Service]\nType=simple\nWorkingDirectory=/root\nExecStart=python3 -m http.server\nRestart=always\nRestartSec=2\n\n[Install]\nWantedBy=multi-user.target\n"
    );
    assert!(process_unit("srv", "/root", "x", true).contains("\nRestart=no\n"));
}

#[test]
fn process_commands() {
    let start = process_start_commands("srv", "/srv", "run", false);
    assert_eq!(start.len(), 4);
    assert_eq!(start[0], "mkdir -p /srv");
    assert!(start[1].starts_with("cat > /etc/systemd/system/vume-srv.service << 'UNIT'\n[Unit]\n"));
    assert!(start[1].ends_with("WantedBy=multi-user.target\nUNIT"));
    assert_eq!(start[2], "systemctl daemon-reload");
    assert_eq!(start[3], "systemctl enable --now vume-srv.service");
    assert_eq!(
        process_stop_commands("srv"),
        [
            "sh -c 'systemctl disable --now vume-srv.service || true'",
            "rm -f /etc/systemd/system/vume-srv.service",
            "systemctl daemon-reload",
        ]
    );
    assert_eq!(
        process_list_command(),
        "systemctl list-units 'vume-*' --type=service --no-pager --plain --all"
    );
    assert_eq!(process_logs_command("srv", 100), "journalctl -u vume-srv -n 100 --no-pager");
}

#[test]
fn creation_time_display() {
    assert_eq!(created_display("2024-06-01T12:34:56.789012345Z"), "2024-06-01 12:34:56");
    assert_eq!(created_display("2024-06-01T1"), "2024-06-01 1");
    assert_eq!(created_display("ééééééééééT"), "ééééééééééT".replace('T', " "));
}

#[test]
fn interactive_ssh_arguments() {
    assert_eq!(
        ssh_args("/opt/vume/vume_key", "172.16.0.2", false),
        [
            "-i",
            "/opt/vume/vume_key",
            "-o",
            "StrictHostKeyChecking=no",
            "-o",
            "UserKnownHostsFile=/dev/null",
            "root@172.16.0.2",
        ]
    );
    assert_eq!(ssh_args("k", "ip", true)[0], "-A");
}

#[test]
fn destroy_all_confirmation() {
    assert!(confirms("y\n"));
    assert!(confirms("  Y  \n"));
    assert!(!confirms("yes\n"));
    assert!(!confirms("n\n"));
    assert!(!confirms("\n"));
}
