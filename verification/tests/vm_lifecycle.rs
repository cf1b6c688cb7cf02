//! A whole VM lifecycle (start, stop, resume, destroy) driven against the
//! in-memory registry, with every other piece of outside work (processes,
//! ZFS, the network, SSH) answered as succeeding.

use vume::ssh::{run_in_vm, RunAction, RunEvent};
use vume::state::{StateManager, VMInfo, VmStatus};
use vume::vm::{
    StartAction, StartError, StartEvent, Teardown, TeardownAction, TeardownError, TeardownEvent,
    VM,
};

fn drive_start(vm: &mut VM, reg: &mut StateManager, pid: u32) -> Result<VMInfo, StartError> {
    let mut action = vm.start();
    loop {
        let event = match action {
            StartAction::LookupVm { vm_id } => StartEvent::Found(reg.get_vm(&vm_id)),
            StartAction::ResumeRecord { vm_id, tap } => match reg.resume_vm(&vm_id, &tap) {
                Ok(info) => StartEvent::Recorded(info),
                Err(e) => StartEvent::Failed(StartError::State(e)),
            },
            StartAction::ReserveRecord { vm_id, tap } => match reg.reserve_vm(&vm_id, &tap) {
                Ok(info) => StartEvent::Recorded(info),
                Err(e) => StartEvent::Failed(StartError::State(e)),
            },
            StartAction::QueryZfs { .. } => StartEvent::Output { success: true, stdout: "v1\n".into() },
            StartAction::Launch { .. } => StartEvent::Launched(pid),
            StartAction::MarkRunning { vm_id, pid } => match reg.mark_running(&vm_id, pid) {
                Ok(info) => StartEvent::Recorded(info),
                Err(e) => StartEvent::Failed(StartError::State(e)),
            },
            StartAction::MarkStopped { vm_id } => {
                let _ = reg.update_status(&vm_id, VmStatus::Stopped);
                StartEvent::Done
            }
            StartAction::Cleanup { vm_id } => {
                reg.delete_vm(&vm_id);
                StartEvent::Done
            }
            StartAction::Finish(res) => return res,
            _ => StartEvent::Done,
        };
        action = vm.advance(event);
    }
}

fn drive_teardown(
    begun: (Teardown, TeardownAction),
    reg: &mut StateManager,
) -> Result<(), TeardownError> {
    let (mut t, mut action) = begun;
    loop {
        let event = match action {
            TeardownAction::LookupVm { vm_id } => TeardownEvent::Found(reg.get_vm(&vm_id)),
            TeardownAction::MarkStopped { vm_id } => match reg.update_status(&vm_id, VmStatus::Stopped) {
                Ok(_) => TeardownEvent::Done,
                Err(e) => TeardownEvent::Failed(TeardownError::State(e)),
            },
            TeardownAction::DeleteRecord { vm_id } => {
                reg.delete_vm(&vm_id);
                TeardownEvent::Done
            }
            TeardownAction::Finish(res) => return res,
            _ => TeardownEvent::Done,
        };
        action = t.advance(event);
    }
}

#[test]
fn test_vm_lifecycle() {
    let mut reg = StateManager::new();

    // Create and start a new VM.
    let mut vm = VM::new("/opt/vume/vmlinux", None, None);
    let vm_id = vm.id().to_string();
    let info = drive_start(&mut vm, &mut reg, 4242).expect("failed to start VM");
    assert_eq!(info.status, VmStatus::Running);
    assert!(info.ip.starts_with("172.16.0."));
    assert!(info.pid > 0);

    // A command run that waits asks for SSH at the VM's address.
    let (mut run, action) = run_in_vm(&vm_id, &["true"], true, 30);
    assert!(matches!(action, RunAction::LookupVm { vm_id: ref id } if *id == vm_id));
    match run.advance(RunEvent::Found(reg.get_vm(&vm_id))) {
        RunAction::WaitReady { ip, timeout_secs } => {
            assert_eq!(ip, info.ip);
            assert_eq!(timeout_secs, 30);
        }
        other => panic!("{other:?}"),
    }

    // Stop the VM.
    drive_teardown(VM::stop(&vm_id), &mut reg).expect("failed to stop VM");
    let stopped = reg.get_vm(&vm_id).expect("VM not found after stop");
    assert_eq!(stopped.status, VmStatus::Stopped);

    // Resume the stopped VM.
    let mut resumed = VM::new("/opt/vume/vmlinux", None, Some(&vm_id));
    let info = drive_start(&mut resumed, &mut reg, 4343).expect("failed to resume VM");
    assert_eq!(info.status, VmStatus::Running);
    assert_eq!(info.pid, 4343);
    assert!(info.ip.starts_with("172.16.0."));

    // Destroy the VM.
    drive_teardown(VM::destroy(&vm_id), &mut reg).expect("failed to destroy VM");
    assert!(reg.get_vm(&vm_id).is_none(), "VM should be gone after destroy");
}
