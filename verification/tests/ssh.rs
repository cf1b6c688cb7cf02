use vume::ssh::{ReadyAction, ReadyEvent, ReadyWait};
use vume::ssh::{run_in_vm, CommandResult, RunAction, RunError, RunEvent};
use vume::state::{VMInfo, VmStatus};

fn vm(status: VmStatus) -> VMInfo {
    VMInfo {
        id: "web".into(),
        pid: 10,
        ip: "172.16.0.8".into(),
        tap: "tap-web".into(),
        status,
        created_at: "t".into(),
    }
}

fn out(code: i32, stdout: &str) -> CommandResult {
    CommandResult { exit_code: code, stdout: stdout.into(), stderr: String::new() }
}

#[test]
fn no_commands_is_refused() {
    let (_, a) = run_in_vm("web", &[], true, 30);
    assert!(matches!(a, RunAction::Finish(Err(RunError::NoCommands))));
}

#[test]
fn vm_must_exist_and_run() {
    let (mut r, a) = run_in_vm("web", &["true"], false, 30);
    assert!(matches!(a, RunAction::LookupVm { ref vm_id } if vm_id == "web"));
    assert!(matches!(r.advance(RunEvent::Found(None)), RunAction::Finish(Err(RunError::NotFound))));
    let (mut r, _) = run_in_vm("web", &["true"], false, 30);
    assert!(matches!(
        r.advance(RunEvent::Found(Some(vm(VmStatus::Stopped)))),
        RunAction::Finish(Err(RunError::NotRunning(VmStatus::Stopped)))
    ));
}

#[test]
fn waits_for_ssh_when_asked() {
    let (mut r, _) = run_in_vm("web", &["uname -a"], true, 12);
    let a = r.advance(RunEvent::Found(Some(vm(VmStatus::Running))));
    assert!(matches!(a, RunAction::WaitReady { ref ip, timeout_secs: 12 } if ip == "172.16.0.8"));
    assert!(matches!(r.advance(RunEvent::Ready(false)), RunAction::Finish(Err(RunError::SshNotReady))));
}

#[test]
fn stops_at_first_failing_command() {
    let (mut r, _) = run_in_vm("web", &["a", "b", "c"], false, 30);
    let a = r.advance(RunEvent::Found(Some(vm(VmStatus::Running))));
    assert!(matches!(a, RunAction::Connect { ref ip, timeout_secs: 30 } if ip == "172.16.0.8"));
    let a = r.advance(RunEvent::Connected);
    assert!(matches!(a, RunAction::Exec { ref command, .. } if command == "a"));
    let a = r.advance(RunEvent::Output(out(0, "one")));
    assert!(matches!(a, RunAction::Exec { ref command, .. } if command == "b"));
    match r.advance(RunEvent::Output(out(3, "two"))) {
        RunAction::Finish(Ok(res)) => {
            assert_eq!(res.exit_code, 3);
            assert_eq!(res.stdout, "two");
        }
        other => panic!("{other:?}"),
    }
}

#[test]
fn returns_last_result_when_all_succeed() {
    let (mut r, _) = run_in_vm("web", &["a", "b"], true, 30);
    r.advance(RunEvent::Found(Some(vm(VmStatus::Running))));
    assert!(matches!(r.advance(RunEvent::Ready(true)), RunAction::Connect { .. }));
    r.advance(RunEvent::Connected);
    r.advance(RunEvent::Output(out(0, "first")));
    match r.advance(RunEvent::Output(out(0, "second"))) {
        RunAction::Finish(Ok(res)) => assert_eq!(res.stdout, "second"),
        other => panic!("{other:?}"),
    }
}

#[test]
fn outside_failure_ends_the_run() {
    let (mut r, _) = run_in_vm("web", &["a"], false, 30);
    r.advance(RunEvent::Found(Some(vm(VmStatus::Running))));
    let a = r.advance(RunEvent::Failed(RunError::Outside("SSH handshake failed".into())));
    assert!(matches!(a, RunAction::Finish(Err(RunError::Outside(ref m))) if m == "SSH handshake failed"));
}

#[test]
fn ready_wait_retries_until_the_deadline() {
    let (mut w, a) = ReadyWait::new("172.16.0.2", 1);
    assert!(matches!(a, ReadyAction::ReadClock));
    let a = w.next(ReadyEvent::Clock { elapsed_millis: 0 });
    assert!(matches!(a, ReadyAction::FlushArp { ref ip } if ip == "172.16.0.2"));
    let a = w.next(ReadyEvent::Done);
    assert!(matches!(a, ReadyAction::Connect { ref ip, timeout_secs: 2 } if ip == "172.16.0.2"));
    assert!(matches!(w.next(ReadyEvent::Connected(false)), ReadyAction::Sleep { millis: 200 }));
    assert!(matches!(w.next(ReadyEvent::Done), ReadyAction::ReadClock));
    assert!(matches!(w.next(ReadyEvent::Clock { elapsed_millis: 999 }), ReadyAction::FlushArp { .. }));
    w.next(ReadyEvent::Done);
    assert!(matches!(w.next(ReadyEvent::Connected(false)), ReadyAction::Sleep { .. }));
    w.next(ReadyEvent::Done);
    assert!(matches!(w.next(ReadyEvent::Clock { elapsed_millis: 1000 }), ReadyAction::Finish(false)));

    let (mut w, _) = ReadyWait::new("172.16.0.3", 30);
    w.next(ReadyEvent::Clock { elapsed_millis: 5 });
    w.next(ReadyEvent::Done);
    assert!(matches!(w.next(ReadyEvent::Connected(true)), ReadyAction::Finish(true)));

    let (mut w, _) = ReadyWait::new("172.16.0.3", 0);
    assert!(matches!(w.next(ReadyEvent::Clock { elapsed_millis: 0 }), ReadyAction::Finish(false)));
}
