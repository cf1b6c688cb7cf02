use vume::firecracker::{
    api_status_failed, boot_args, is_absolute, resolve_socket, ApiAnswer, ApiBody, ApiError,
    ApiStep, Firecracker, LaunchStep, LaunchWatch,
};

#[test]
fn socket_resolution() {
    assert!(is_absolute("/run/fc.sock"));
    assert!(!is_absolute("vume/vms/a/firecracker.sock"));
    assert_eq!(resolve_socket("/run/fc.sock", "/home/x"), "/run/fc.sock");
    assert_eq!(
        resolve_socket("vume/vms/a/firecracker.sock", "/home/x"),
        "/home/x/vume/vms/a/firecracker.sock"
    );
}

#[test]
fn boot_arguments() {
    assert_eq!(
        boot_args("172.16.0.5"),
        "console=ttyS0 reboot=k panic=1 pci=off ip=172.16.0.5::172.16.0.1:255.255.255.0::eth0:off"
    );
}

#[test]
fn configuration_requests() {
    let fc = Firecracker::new(
        "vume/vms/a/firecracker.sock",
        "/work",
        "/k/vmlinux",
        "/dev/zvol/vume/a",
        "tap-a",
        "172.16.0.5",
    );
    assert_eq!(fc.socket(), "/work/vume/vms/a/firecracker.sock");
    let reqs = fc.configure();
    let paths: Vec<&str> = reqs.iter().map(|r| r.path.as_str()).collect();
    assert_eq!(paths, ["/machine-config", "/boot-source", "/drives/rootfs", "/network-interfaces/eth0"]);
    assert!(matches!(reqs[0].body, ApiBody::MachineConfig { vcpu_count: 2, mem_size_mib: 1024 }));
    match &reqs[1].body {
        ApiBody::BootSource { kernel_image_path, boot_args } => {
            assert_eq!(kernel_image_path, "/k/vmlinux");
            assert!(boot_args.contains("ip=172.16.0.5::"));
        }
        other => panic!("{other:?}"),
    }
    match &reqs[2].body {
        ApiBody::Drive { drive_id, path_on_host, is_root_device, is_read_only } => {
            assert_eq!(drive_id, "rootfs");
            assert_eq!(path_on_host, "/dev/zvol/vume/a");
            assert!(*is_root_device);
            assert!(!*is_read_only);
        }
        other => panic!("{other:?}"),
    }
    match &reqs[3].body {
        ApiBody::NetworkInterface { iface_id, host_dev_name } => {
            assert_eq!(iface_id, "eth0");
            assert_eq!(host_dev_name, "tap-a");
        }
        other => panic!("{other:?}"),
    }
    let start = fc.start();
    assert_eq!(start.path, "/actions");
    assert!(matches!(start.body, ApiBody::Action { ref action_type } if action_type == "InstanceStart"));
}

#[test]
fn api_status_classes() {
    assert!(!api_status_failed(200));
    assert!(!api_status_failed(204));
    assert!(!api_status_failed(399));
    assert!(api_status_failed(400));
    assert!(api_status_failed(404));
    assert!(api_status_failed(599));
    assert!(!api_status_failed(600));
}

#[test]
fn launch_wait_sequences() {
    let fc = Firecracker::new("/run/fc.sock", "", "/k", "/r", "t", "172.16.0.2");
    assert_eq!(fc.socket(), "/run/fc.sock");
    let (mut w, first) = fc.launch();
    assert_eq!(first, LaunchStep::CheckSocket);
    assert_eq!(w.next(false), LaunchStep::CheckExited);
    assert_eq!(w.next(false), LaunchStep::Sleep { millis: 100 });
    assert_eq!(w.next(false), LaunchStep::CheckSocket);
    assert_eq!(w.next(true), LaunchStep::Ready);

    let (mut w, _) = LaunchWatch::new();
    assert_eq!(w.next(false), LaunchStep::CheckExited);
    assert_eq!(w.next(true), LaunchStep::Exited);

    let (mut w, _) = LaunchWatch::new();
    let mut sleeps = 0;
    let mut checks = 1;
    loop {
        match w.next(false) {
            LaunchStep::Sleep { .. } => sleeps += 1,
            LaunchStep::CheckSocket => checks += 1,
            LaunchStep::CheckExited => {}
            LaunchStep::TimedOut => break,
            other => panic!("{other:?}"),
        }
    }
    assert_eq!(sleeps, 50);
    assert_eq!(checks, 50);
}

fn machine() -> Firecracker {
    Firecracker::new("/run/fc.sock", "/", "/k", "/dev/zvol/vume/a", "tap-a", "172.16.0.5")
}

fn path(s: &ApiStep) -> &str {
    match s {
        ApiStep::Send(r) => r.path.as_str(),
        other => panic!("{other:?}"),
    }
}

#[test]
fn configure_stops_at_first_failing_request() {
    let (mut run, s) = machine().configure_run();
    assert_eq!(path(&s), "/machine-config");
    let s = run.next(ApiAnswer::Status(204));
    assert_eq!(path(&s), "/boot-source");
    let s = run.next(ApiAnswer::Status(400));
    assert!(matches!(s, ApiStep::Finish(Err(ApiError::Status(400)))));
    assert!(matches!(run.next(ApiAnswer::Status(204)), ApiStep::Finish(Err(ApiError::Unexpected))));

    let (mut run, _) = machine().configure_run();
    assert!(matches!(run.next(ApiAnswer::SendFailed), ApiStep::Finish(Err(ApiError::SendFailed))));
}

#[test]
fn configure_sends_every_request_when_all_succeed() {
    let (mut run, s) = machine().configure_run();
    let mut paths = vec![path(&s).to_string()];
    loop {
        match run.next(ApiAnswer::Status(204)) {
            ApiStep::Send(r) => paths.push(r.path),
            ApiStep::Finish(res) => {
                assert!(res.is_ok());
                break;
            }
        }
    }
    assert_eq!(paths, ["/machine-config", "/boot-source", "/drives/rootfs", "/network-interfaces/eth0"]);
    let (mut run, s) = machine().start_run();
    assert_eq!(path(&s), "/actions");
    assert!(matches!(run.next(ApiAnswer::Status(500)), ApiStep::Finish(Err(ApiError::Status(500)))));
}
