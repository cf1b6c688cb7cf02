use vume::state::{VMInfo, VmStatus};
use vume::vm::{
    rootfs_snapshot, tap_name, zfs_clone_args, zfs_destroy_args, zfs_latest_args, KillAction,
    KillSignal, ProcessKiller, RootfsError, StartAction, StartError, StartEvent, StartPhase,
    TeardownAction, TeardownError, TeardownEvent, TeardownPhase, VM,
};

fn row(id: &str, ip: &str, pid: i64, status: VmStatus) -> VMInfo {
    VMInfo {
        id: id.to_string(),
        pid,
        ip: ip.to_string(),
        tap: format!("tap-{id}"),
        status,
        created_at: "2024-01-01T00:00:00Z".to_string(),
    }
}

#[test]
fn new_vm_paths() {
    let vm = VM::new("/opt/vume/vmlinux", Some("eth1"), Some("web"));
    assert_eq!(vm.id(), "web");
    assert_eq!(vm.phase(), StartPhase::Idle);
    assert_eq!(tap_name("web"), "tap-web");
    let auto = VM::new("/k", None, None);
    assert_eq!(auto.id().len(), 8);
    assert!(auto.id().chars().all(|c| c.is_ascii_hexdigit() && !c.is_ascii_uppercase()));
    let other = VM::new("/k", None, None);
    assert_ne!(auto.id(), other.id());
}

#[test]
fn zfs_arguments() {
    assert_eq!(zfs_latest_args(), ["get", "-H", "-o", "value", "vume:latest", "vume/rootfs"]);
    assert_eq!(zfs_clone_args("vume/rootfs@v1", "web"), ["clone", "vume/rootfs@v1", "vume/web"]);
    assert_eq!(zfs_destroy_args("web"), ["destroy", "-r", "vume/web"]);
}

#[test]
fn rootfs_snapshot_from_zfs_output() {
    assert_eq!(rootfs_snapshot(false, "v1\n"), Err(RootfsError::ZfsGetFailed));
    assert_eq!(rootfs_snapshot(true, "  \n"), Err(RootfsError::LatestUnset));
    assert_eq!(rootfs_snapshot(true, "-\n"), Err(RootfsError::LatestUnset));
    assert_eq!(rootfs_snapshot(true, "\t2024-06\r\n").unwrap(), "vume/rootfs@2024-06");
}

#[test]
fn start_new_vm_runs_every_step() {
    let mut vm = VM::new("/opt/vume/vmlinux", None, Some("web"));
    let a = vm.start();
    assert!(matches!(a, StartAction::LookupVm { ref vm_id } if vm_id == "web"));
    let a = vm.advance(StartEvent::Found(None));
    assert!(matches!(a, StartAction::CreateDir { ref path } if path == "vume/vms/web"));
    let a = vm.advance(StartEvent::Done);
    assert!(matches!(a, StartAction::QueryZfs { ref args } if args[4] == "vume:latest"));
    let a = vm.advance(StartEvent::Output { success: true, stdout: "v3\n".into() });
    match a {
        StartAction::RunZfs { args } => assert_eq!(args, ["clone", "vume/rootfs@v3", "vume/web"]),
        other => panic!("{other:?}"),
    }
    let a = vm.advance(StartEvent::Done);
    assert!(matches!(a, StartAction::ReserveRecord { ref vm_id, ref tap } if vm_id == "web" && tap == "tap-web"));
    let a = vm.advance(StartEvent::Recorded(row("web", "172.16.0.7", 0, VmStatus::Booting)));
    assert!(matches!(a, StartAction::EnsureBridge { outbound_if: None }));
    let a = vm.advance(StartEvent::Done);
    assert!(matches!(a, StartAction::CreateTap { ref tap } if tap == "tap-web"));
    let a = vm.advance(StartEvent::Done);
    match a {
        StartAction::Launch { socket, kernel, rootfs, tap, ip } => {
            assert_eq!(socket, "vume/vms/web/firecracker.sock");
            assert_eq!(kernel, "/opt/vume/vmlinux");
            assert_eq!(rootfs, "/dev/zvol/vume/web");
            assert_eq!(tap, "tap-web");
            assert_eq!(ip, "172.16.0.7");
        }
        other => panic!("{other:?}"),
    }
    assert!(matches!(vm.advance(StartEvent::Launched(4321)), StartAction::Configure));
    assert!(matches!(vm.advance(StartEvent::Done), StartAction::StartInstance));
    let a = vm.advance(StartEvent::Done);
    assert!(matches!(a, StartAction::MarkRunning { ref vm_id, pid: 4321 } if vm_id == "web"));
    let a = vm.advance(StartEvent::Recorded(row("web", "172.16.0.7", 4321, VmStatus::Running)));
    match a {
        StartAction::Finish(Ok(info)) => {
            assert_eq!(info.status, VmStatus::Running);
            assert_eq!(info.pid, 4321);
        }
        other => panic!("{other:?}"),
    }
    assert_eq!(vm.phase(), StartPhase::Finished);
}

#[test]
fn failure_after_launch_is_rolled_back() {
    let mut vm = VM::new("/k", Some("eth0"), Some("db"));
    vm.start();
    vm.advance(StartEvent::Found(None));
    vm.advance(StartEvent::Done);
    vm.advance(StartEvent::Output { success: true, stdout: "v1".into() });
    vm.advance(StartEvent::Done);
    vm.advance(StartEvent::Recorded(row("db", "172.16.0.2", 0, VmStatus::Booting)));
    vm.advance(StartEvent::Done);
    vm.advance(StartEvent::Done);
    vm.advance(StartEvent::Launched(77));
    let a = vm.advance(StartEvent::Failed(StartError::Outside("PUT /boot-source failed".into())));
    assert!(matches!(a, StartAction::KillProcess { pid: 77 }));
    let a = vm.advance(StartEvent::Done);
    assert!(matches!(a, StartAction::DeleteTap { ref tap } if tap == "tap-db"));
    let a = vm.advance(StartEvent::Done);
    assert!(matches!(a, StartAction::Cleanup { ref vm_id } if vm_id == "db"));
    let a = vm.advance(StartEvent::Failed(StartError::Outside("ignored".into())));
    match a {
        StartAction::Finish(Err(StartError::Outside(m))) => assert_eq!(m, "PUT /boot-source failed"),
        other => panic!("{other:?}"),
    }
}

#[test]
fn missing_rootfs_version_fails_before_reserving() {
    let mut vm = VM::new("/k", None, Some("x"));
    vm.start();
    vm.advance(StartEvent::Found(None));
    vm.advance(StartEvent::Done);
    let a = vm.advance(StartEvent::Output { success: true, stdout: "-\n".into() });
    assert!(matches!(a, StartAction::DeleteTap { .. }));
    let a = vm.advance(StartEvent::Done);
    assert!(matches!(a, StartAction::Cleanup { .. }));
    let a = vm.advance(StartEvent::Done);
    assert!(matches!(a, StartAction::Finish(Err(StartError::Rootfs(RootfsError::LatestUnset)))));
}

#[test]
fn stopped_vm_is_resumed_and_marked_stopped_on_failure() {
    let mut vm = VM::new("/k", None, Some("old"));
    vm.start();
    let a = vm.advance(StartEvent::Found(Some(row("old", "172.16.0.9", 0, VmStatus::Stopped))));
    assert!(matches!(a, StartAction::ResumeRecord { ref vm_id, ref tap } if vm_id == "old" && tap == "tap-old"));
    let a = vm.advance(StartEvent::Recorded(row("old", "172.16.0.3", 0, VmStatus::Booting)));
    assert!(matches!(a, StartAction::EnsureBridge { .. }));
    let a = vm.advance(StartEvent::Failed(StartError::Outside("bridge".into())));
    assert!(matches!(a, StartAction::DeleteTap { .. }));
    let a = vm.advance(StartEvent::Done);
    assert!(matches!(a, StartAction::MarkStopped { ref vm_id } if vm_id == "old"));
    let a = vm.advance(StartEvent::Done);
    assert!(matches!(a, StartAction::Finish(Err(StartError::Outside(_)))));
}

#[test]
fn active_vm_is_refused() {
    let mut vm = VM::new("/k", None, Some("busy"));
    vm.start();
    let a = vm.advance(StartEvent::Found(Some(row("busy", "172.16.0.2", 5, VmStatus::Running))));
    assert!(matches!(a, StartAction::DeleteTap { .. }));
    let a = vm.advance(StartEvent::Done);
    assert!(matches!(a, StartAction::Cleanup { .. }));
    let a = vm.advance(StartEvent::Done);
    assert!(matches!(a, StartAction::Finish(Err(StartError::AlreadyActive(VmStatus::Running)))));
}

#[test]
fn unexpected_event_fails_the_start() {
    let mut vm = VM::new("/k", None, Some("u"));
    vm.start();
    let a = vm.advance(StartEvent::Launched(3));
    assert!(matches!(a, StartAction::DeleteTap { .. }));
    vm.advance(StartEvent::Done);
    let a = vm.advance(StartEvent::Done);
    assert!(matches!(a, StartAction::Finish(Err(StartError::Unexpected))));
}

fn run_killer(mut k: ProcessKiller, alive_for: usize, term_ok: bool) -> Vec<KillAction> {
    let mut out = Vec::new();
    let mut probes = 0;
    let mut ok = true;
    loop {
        let a = k.next(ok);
        out.push(a);
        ok = match a {
            KillAction::Signal { signal: KillSignal::Term, .. } => term_ok,
            KillAction::Probe { .. } => {
                probes += 1;
                probes <= alive_for
            }
            _ => true,
        };
        if a == KillAction::Done {
            return out;
        }
        assert!(out.len() < 100);
    }
}

#[test]
fn kill_stops_when_process_exits() {
    let acts = run_killer(ProcessKiller::new(9, true), 2, true);
    assert_eq!(acts[0], KillAction::Signal { pid: 9, signal: KillSignal::Term });
    let probes = acts.iter().filter(|a| matches!(a, KillAction::Probe { .. })).count();
    assert_eq!(probes, 3);
    assert!(!acts.contains(&KillAction::Signal { pid: 9, signal: KillSignal::Kill }));
}

#[test]
fn kill_forces_after_thirty_checks() {
    let acts = run_killer(ProcessKiller::new(9, true), usize::MAX, true);
    let probes = acts.iter().filter(|a| matches!(a, KillAction::Probe { .. })).count();
    let sleeps = acts.iter().filter(|a| matches!(a, KillAction::Sleep { millis: 100 })).count();
    assert_eq!(probes, 30);
    assert_eq!(sleeps, 30);
    assert_eq!(acts[acts.len() - 2], KillAction::Signal { pid: 9, signal: KillSignal::Kill });
    let gentle = run_killer(ProcessKiller::new(9, false), usize::MAX, true);
    assert!(!gentle.contains(&KillAction::Signal { pid: 9, signal: KillSignal::Kill }));
    let refused = run_killer(ProcessKiller::new(9, true), usize::MAX, false);
    assert_eq!(refused.len(), 2);
}

#[test]
fn stop_kills_removes_tap_and_marks_stopped() {
    let (mut t, a) = VM::stop("web");
    assert!(matches!(a, TeardownAction::LookupVm { ref vm_id } if vm_id == "web"));
    let a = t.advance(TeardownEvent::Found(Some(row("web", "172.16.0.2", 55, VmStatus::Running))));
    assert!(matches!(a, TeardownAction::KillProcess { pid: 55 }));
    let a = t.advance(TeardownEvent::Done);
    assert!(matches!(a, TeardownAction::DeleteTap { ref tap } if tap == "tap-web"));
    let a = t.advance(TeardownEvent::Done);
    assert!(matches!(a, TeardownAction::MarkStopped { ref vm_id } if vm_id == "web"));
    let a = t.advance(TeardownEvent::Done);
    assert!(matches!(a, TeardownAction::Finish(Ok(()))));
    assert_eq!(t.phase(), TeardownPhase::Finished);
}

#[test]
fn stop_unknown_vm_fails() {
    let (mut t, _) = VM::stop("ghost");
    assert!(matches!(
        t.advance(TeardownEvent::Found(None)),
        TeardownAction::Finish(Err(TeardownError::NotFound))
    ));
}

#[test]
fn destroy_attempts_every_removal_and_reports_the_first_failure() {
    let (mut t, _) = VM::destroy("web");
    let a = t.advance(TeardownEvent::Found(Some(row("web", "172.16.0.2", 0, VmStatus::Stopped))));
    assert!(matches!(a, TeardownAction::DeleteTap { .. }));
    let a = t.advance(TeardownEvent::Done);
    assert!(matches!(a, TeardownAction::RemoveDir { ref path } if path == "vume/vms/web"));
    let a = t.advance(TeardownEvent::Done);
    match a {
        TeardownAction::RunZfs { args } => assert_eq!(args, ["destroy", "-r", "vume/web"]),
        other => panic!("{other:?}"),
    }
    let a = t.advance(TeardownEvent::Failed(TeardownError::Outside("zfs destroy failed".into())));
    assert!(matches!(a, TeardownAction::DeleteRecord { ref vm_id } if vm_id == "web"));
    let a = t.advance(TeardownEvent::Failed(TeardownError::Outside("db".into())));
    match a {
        TeardownAction::Finish(Err(TeardownError::Outside(m))) => assert_eq!(m, "zfs destroy failed"),
        other => panic!("{other:?}"),
    }
}

#[test]
fn cleanup_starts_with_the_directory() {
    let (mut t, a) = VM::cleanup("x");
    assert!(matches!(a, TeardownAction::RemoveDir { ref path } if path == "vume/vms/x"));
    t.advance(TeardownEvent::Done);
    t.advance(TeardownEvent::Done);
    assert!(matches!(t.advance(TeardownEvent::Done), TeardownAction::Finish(Ok(()))));
}
