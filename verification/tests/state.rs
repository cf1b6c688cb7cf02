use vume::state::{
    db_path, row_changes, RowChange, vms_dir, StateError, StateManager, VMInfo, VmStatus};

fn info(id: &str, pid: i64, ip: &str, status: VmStatus, created_at: &str) -> VMInfo {
    VMInfo {
        id: id.to_string(),
        pid,
        ip: ip.to_string(),
        tap: format!("tap-{id}"),
        status,
        created_at: created_at.to_string(),
    }
}

#[test]
fn status_text_round_trip() {
    for st in [VmStatus::Booting, VmStatus::Running, VmStatus::Stopped, VmStatus::Error] {
        assert_eq!(VmStatus::parse(st.as_str()).unwrap(), st);
        assert_eq!(st.as_str().parse::<VmStatus>().unwrap(), st);
    }
    assert_eq!(VmStatus::Running.as_str(), "running");
    assert_eq!(VmStatus::Error.as_str(), "error");
    match VmStatus::parse("paused") {
        Err(StateError::UnknownStatus(t)) => assert_eq!(t, "paused"),
        other => panic!("unexpected {other:?}"),
    }
    assert!(VmStatus::parse("Running").is_err());
}

#[test]
fn pid_u32_only_for_valid_ids() {
    let mut vm = info("a", 0, "172.16.0.2", VmStatus::Running, "t");
    assert_eq!(vm.pid_u32(), None);
    vm.pid = -5;
    assert_eq!(vm.pid_u32(), None);
    vm.pid = 4242;
    assert_eq!(vm.pid_u32(), Some(4242));
    vm.pid = u32::MAX as i64;
    assert_eq!(vm.pid_u32(), Some(u32::MAX));
    vm.pid = u32::MAX as i64 + 1;
    assert_eq!(vm.pid_u32(), None);
}

#[test]
fn registry_paths() {
    assert_eq!(vms_dir(), "vume/vms");
    assert_eq!(db_path(), "vume/vms/vume.db");
}

#[test]
fn from_row_reads_status_column() {
    let row = VMInfo::from_row(
        "a".into(),
        7,
        "172.16.0.9".into(),
        "tap-a".into(),
        "stopped",
        "2024".into(),
    )
    .unwrap();
    assert_eq!(row.status, VmStatus::Stopped);
    assert_eq!(row.pid, 7);
    assert!(matches!(
        VMInfo::from_row("a".into(), 7, "ip".into(), "t".into(), "zombie", "x".into()),
        Err(StateError::UnknownStatus(_))
    ));
}

#[test]
fn reserve_mark_stop_resume_lifecycle() {
    let mut s = StateManager::new();
    let a = s.reserve_vm_at("a", "tap-a", "2024-01-01T00:00:00Z".into()).unwrap();
    assert_eq!(a.ip, "172.16.0.2");
    assert_eq!(a.status, VmStatus::Booting);
    assert_eq!(a.pid, 0);
    assert_eq!(a.tap, "tap-a");
    let b = s.reserve_vm_at("b", "tap-b", "2024-01-01T00:00:01Z".into()).unwrap();
    assert_eq!(b.ip, "172.16.0.3");
    assert!(matches!(
        s.reserve_vm_at("a", "tap-a", "2024-01-02T00:00:00Z".into()),
        Err(StateError::DuplicateId)
    ));

    let a = s.mark_running("a", 42).unwrap();
    assert_eq!(a.status, VmStatus::Running);
    assert_eq!(a.pid, 42);
    assert_eq!(s.get_vm("a").unwrap().pid, 42);

    let a = s.update_status("a", VmStatus::Stopped).unwrap();
    assert_eq!(a.status, VmStatus::Stopped);
    assert_eq!(a.ip, "172.16.0.2");

    // The stopped VM's address is free again.
    let c = s.reserve_vm_at("c", "tap-c", "2024-01-01T00:00:02Z".into()).unwrap();
    assert_eq!(c.ip, "172.16.0.2");

    // Making the stopped VM active again would share an address.
    assert!(matches!(
        s.update_status("a", VmStatus::Running),
        Err(StateError::IpConflict)
    ));
    assert!(matches!(s.mark_running("a", 9), Err(StateError::IpConflict)));
    assert_eq!(s.get_vm("a").unwrap().status, VmStatus::Stopped);

    // Resuming hands out a fresh address and keeps the creation time.
    let a = s.resume_vm("a", "tap-a2").unwrap();
    assert_eq!(a.ip, "172.16.0.4");
    assert_eq!(a.status, VmStatus::Booting);
    assert_eq!(a.pid, 0);
    assert_eq!(a.tap, "tap-a2");
    assert_eq!(a.created_at, "2024-01-01T00:00:00Z");

    // A resumed VM can be marked running again.
    let a = s.mark_running("a", 77).unwrap();
    assert_eq!(a.status, VmStatus::Running);
    assert_eq!(a.ip, "172.16.0.4");
    assert_eq!(s.get_vm("a").unwrap().pid, 77);

    assert!(matches!(s.resume_vm("zzz", "t"), Err(StateError::NotFound)));
    assert!(matches!(s.mark_running("zzz", 1), Err(StateError::NotFound)));
    assert!(matches!(
        s.update_status("zzz", VmStatus::Error),
        Err(StateError::NotFound)
    ));
    assert_eq!(s.vms().len(), 3);
}

#[test]
fn delete_removes_only_the_row() {
    let mut s = StateManager::new();
    s.reserve_vm_at("a", "tap-a", "1".into()).unwrap();
    s.reserve_vm_at("b", "tap-b", "2".into()).unwrap();
    s.delete_vm("a");
    assert!(s.get_vm("a").is_none());
    assert!(s.get_vm("b").is_some());
    s.delete_vm("missing");
    assert_eq!(s.vms().len(), 1);
    // The deleted VM's address is free.
    assert_eq!(s.reserve_vm_at("c", "tap-c", "3".into()).unwrap().ip, "172.16.0.2");
}

#[test]
fn list_is_filtered_and_ordered_by_creation() {
    let rows = vec![
        info("late", 1, "172.16.0.2", VmStatus::Running, "2024-03-01"),
        info("early", 2, "172.16.0.3", VmStatus::Stopped, "2024-01-01"),
        info("mid1", 3, "172.16.0.4", VmStatus::Running, "2024-02-01"),
        info("mid2", 4, "172.16.0.5", VmStatus::Running, "2024-02-01"),
    ];
    let s = StateManager::from_rows(rows).unwrap();
    let all: Vec<String> = s.list_vms(None).into_iter().map(|v| v.id).collect();
    assert_eq!(all, ["early", "mid1", "mid2", "late"]);
    let running: Vec<String> = s
        .list_vms(Some(VmStatus::Running))
        .into_iter()
        .map(|v| v.id)
        .collect();
    assert_eq!(running, ["mid1", "mid2", "late"]);
    assert!(s.list_vms(Some(VmStatus::Booting)).is_empty());
}

#[test]
fn from_rows_refuses_broken_tables() {
    let dup_id = vec![
        info("a", 1, "172.16.0.2", VmStatus::Stopped, "1"),
        info("a", 2, "172.16.0.3", VmStatus::Stopped, "2"),
    ];
    assert!(matches!(
        StateManager::from_rows(dup_id),
        Err(StateError::Inconsistent)
    ));
    let dup_ip = vec![
        info("a", 1, "172.16.0.2", VmStatus::Running, "1"),
        info("b", 2, "172.16.0.2", VmStatus::Booting, "2"),
    ];
    assert!(matches!(
        StateManager::from_rows(dup_ip),
        Err(StateError::Inconsistent)
    ));
    let shared_inactive = vec![
        info("a", 1, "172.16.0.2", VmStatus::Running, "1"),
        info("b", 2, "172.16.0.2", VmStatus::Stopped, "2"),
    ];
    assert!(StateManager::from_rows(shared_inactive).is_ok());
}

#[test]
fn pool_is_exhausted_after_253_active_vms() {
    let mut s = StateManager::new();
    for i in 0..253 {
        let vm = s
            .reserve_vm_at(&format!("vm{i}"), "t", format!("{i:05}"))
            .unwrap();
        assert_eq!(vm.ip, format!("172.16.0.{}", i + 2));
    }
    assert!(matches!(
        s.reserve_vm_at("one-more", "t", "x".into()),
        Err(StateError::NoAvailableIp)
    ));
    assert!(matches!(s.allocate_ip(), Err(StateError::NoAvailableIp)));
    s.update_status("vm100", VmStatus::Error).unwrap();
    assert_eq!(s.allocate_ip().unwrap(), "172.16.0.102");
}

#[test]
fn refresh_marks_booting_and_dead_running_as_error() {
    let rows = vec![
        info("alive", 100, "172.16.0.2", VmStatus::Running, "2024-05"),
        info("dead", 101, "172.16.0.3", VmStatus::Running, "2024-04"),
        info("nopid", 0, "172.16.0.4", VmStatus::Running, "2024-03"),
        info("boot", 0, "172.16.0.5", VmStatus::Booting, "2024-01"),
        info("off", 102, "172.16.0.6", VmStatus::Stopped, "2024-02"),
    ];
    let mut s = StateManager::from_rows(rows).unwrap();
    let probes = s.liveness_probes();
    assert_eq!(probes, vec![Some(100), Some(101), None, None, None]);
    let alive = vec![true, false, true, true, true];
    let stale = s.refresh_status(&alive);
    let ids: Vec<&str> = stale.iter().map(|v| v.id.as_str()).collect();
    assert_eq!(ids, ["nopid", "dead", "boot"]);
    assert!(stale.iter().all(|v| v.status == VmStatus::Error));
    assert_eq!(s.get_vm("alive").unwrap().status, VmStatus::Running);
    assert_eq!(s.get_vm("dead").unwrap().status, VmStatus::Error);
    assert_eq!(s.get_vm("boot").unwrap().status, VmStatus::Error);
    assert_eq!(s.get_vm("off").unwrap().status, VmStatus::Stopped);
}

#[test]
fn reserve_vm_stamps_the_current_time() {
    let mut s = StateManager::new();
    let vm = s.reserve_vm("a", "tap-a").unwrap();
    assert_eq!(vm.ip, "172.16.0.2");
    assert!(vm.created_at.starts_with("20"));
    assert!(vm.created_at.contains('T'));
    let b = vm.created_at.as_bytes();
    assert_eq!(b.len(), 30);
    assert_eq!((b[4], b[7], b[10], b[13], b[16], b[19], b[29]), (b'-', b'-', b'T', b':', b':', b'.', b'Z'));
    assert!(b[20..29].iter().all(|c| c.is_ascii_digit()));
    assert_eq!(s.get_vm("a").unwrap().created_at, vm.created_at);
}

#[test]
fn row_changes_bring_before_to_after() {
    let before = vec![info("a", 10, "172.16.0.2", VmStatus::Running, "1"), info("b", 0, "172.16.0.3", VmStatus::Stopped, "2"), info("c", 12, "172.16.0.4", VmStatus::Running, "3")];
    let mut after = vec![info("a", 10, "172.16.0.2", VmStatus::Running, "1"), info("c", 12, "172.16.0.4", VmStatus::Error, "3"), info("d", 0, "172.16.0.5", VmStatus::Booting, "4")];
    let changes = row_changes(&before, &after);
    assert_eq!(changes.len(), 3);
    assert!(matches!(changes[0], RowChange::Delete(ref id) if id == "b"));
    assert!(matches!(changes[1], RowChange::Update(ref r) if r.id == "c" && r.status == VmStatus::Error));
    assert!(matches!(changes[2], RowChange::Insert(ref r) if r.id == "d"));
    after.truncate(0);
    assert!(row_changes(&before, &before).is_empty());
    assert_eq!(row_changes(&before, &after).len(), 3);
}
