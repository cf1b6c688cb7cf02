use vume::network::{
    detect_default_interface, iptables_ensure, nat_rules, BridgeAction, BridgeEvent,
    CommandOutcome, CommandStep, NetError, NetworkManager,
};

fn args(c: &vume::network::CommandLine) -> Vec<&str> {
    c.args.iter().map(|a| a.as_str()).collect()
}

#[test]
fn tap_commands() {
    let cmds = NetworkManager::create_tap("tap-web");
    assert_eq!(cmds.len(), 3);
    assert!(cmds.iter().all(|c| c.program == "ip"));
    assert_eq!(args(&cmds[0]), ["tuntap", "add", "dev", "tap-web", "mode", "tap"]);
    assert_eq!(args(&cmds[1]), ["link", "set", "tap-web", "master", "br0"]);
    assert_eq!(args(&cmds[2]), ["link", "set", "tap-web", "up"]);
    assert_eq!(args(&NetworkManager::delete_tap("tap-web")), ["link", "del", "tap-web"]);
}

#[test]
fn bridge_commands() {
    let cmds = NetworkManager::bridge_commands();
    assert_eq!(args(&cmds[0]), ["link", "add", "br0", "type", "bridge"]);
    assert_eq!(args(&cmds[1]), ["addr", "add", "172.16.0.1/24", "dev", "br0"]);
    assert_eq!(args(&cmds[2]), ["link", "set", "br0", "up"]);
    assert_eq!(args(&NetworkManager::bridge_check()), ["link", "show", "br0"]);
    assert_eq!(args(&NetworkManager::default_route_query()), ["route", "show", "default"]);
}

#[test]
fn nat_rule_commands() {
    let rules = nat_rules("eth1");
    let (check, add) = iptables_ensure(&rules[0]);
    assert_eq!(check.program, "iptables");
    assert_eq!(
        args(&check),
        ["-t", "nat", "-C", "POSTROUTING", "-s", "172.16.0.0/24", "-o", "eth1", "-j", "MASQUERADE"]
    );
    assert_eq!(
        args(&add),
        ["-t", "nat", "-A", "POSTROUTING", "-s", "172.16.0.0/24", "-o", "eth1", "-j", "MASQUERADE"]
    );
    let (check, _) = iptables_ensure(&rules[1]);
    assert_eq!(args(&check), ["-C", "FORWARD", "-i", "br0", "-o", "eth1", "-j", "ACCEPT"]);
    let (_, add) = iptables_ensure(&rules[2]);
    assert_eq!(
        args(&add),
        [
            "-A", "FORWARD", "-i", "eth1", "-o", "br0", "-m", "state", "--state",
            "RELATED,ESTABLISHED", "-j", "ACCEPT"
        ]
    );
}

#[test]
fn default_interface_from_route() {
    assert_eq!(detect_default_interface(None), "eth0");
    assert_eq!(detect_default_interface(Some("")), "eth0");
    assert_eq!(
        detect_default_interface(Some("default via 10.0.0.1 dev enp3s0 proto dhcp metric 100\n")),
        "enp3s0"
    );
    assert_eq!(
        detect_default_interface(Some("default dev lo\ndefault via 1.2.3.4  dev\twlan0\r\n")),
        "wlan0"
    );
    assert_eq!(detect_default_interface(Some("default via 1.2.3.4 dev")), "eth0");
    assert_eq!(detect_default_interface(Some("dev dev x")), "dev");
}

fn ran(success: bool, stdout: &str) -> BridgeEvent {
    BridgeEvent::Ran {
        spawned: true,
        success,
        status: if success { "exit status: 0".into() } else { "exit status: 1".into() },
        stdout: stdout.into(),
    }
}

#[test]
fn existing_bridge_is_left_alone() {
    let (mut b, a) = NetworkManager::ensure_bridge(None);
    assert!(matches!(a, BridgeAction::Run(ref c) if args(c) == ["link", "show", "br0"]));
    assert!(matches!(b.advance(ran(true, "")), BridgeAction::Finish(Ok(()))));
}

#[test]
fn bridge_setup_detects_interface_and_adds_missing_rules() {
    let (mut b, _) = NetworkManager::ensure_bridge(None);
    let a = b.advance(BridgeEvent::Ran { spawned: false, success: false, status: String::new(), stdout: String::new() });
    assert!(matches!(a, BridgeAction::Run(ref c) if args(c) == ["link", "add", "br0", "type", "bridge"]));
    b.advance(ran(true, ""));
    let a = b.advance(ran(true, ""));
    assert!(matches!(a, BridgeAction::Run(ref c) if args(c) == ["link", "set", "br0", "up"]));
    let a = b.advance(ran(true, ""));
    match a {
        BridgeAction::WriteFile { path, contents } => {
            assert_eq!(path, "/proc/sys/net/ipv4/ip_forward");
            assert_eq!(contents, "1\n");
        }
        other => panic!("{other:?}"),
    }
    let a = b.advance(BridgeEvent::Written);
    assert!(matches!(a, BridgeAction::Run(ref c) if args(c) == ["route", "show", "default"]));
    let a = b.advance(ran(true, "default via 10.1.1.1 dev eno1\n"));
    assert!(matches!(a, BridgeAction::Run(ref c) if c.program == "iptables" && args(c)[2] == "-C" && args(c)[7] == "eno1"));
    // First rule exists; second is missing and is added; third exists.
    let a = b.advance(ran(true, ""));
    assert!(matches!(a, BridgeAction::Run(ref c) if args(c)[0] == "-C" && args(c)[1] == "FORWARD"));
    let a = b.advance(ran(false, ""));
    assert!(matches!(a, BridgeAction::Run(ref c) if args(c)[0] == "-A"));
    let a = b.advance(ran(true, ""));
    assert!(matches!(a, BridgeAction::Run(ref c) if args(c)[0] == "-C" && args(c)[3] == "eno1"));
    assert!(matches!(b.advance(ran(true, "")), BridgeAction::Finish(Ok(()))));
}

#[test]
fn bridge_setup_errors() {
    let (mut b, _) = NetworkManager::ensure_bridge(Some("eth9"));
    b.advance(ran(false, ""));
    let a = b.advance(ran(false, ""));
    assert!(matches!(a, BridgeAction::Finish(Err(NetError::CommandFailed { ref status })) if status == "exit status: 1"));

    let (mut b, _) = NetworkManager::ensure_bridge(Some("eth9"));
    b.advance(ran(false, ""));
    b.advance(ran(true, ""));
    b.advance(ran(true, ""));
    b.advance(ran(true, ""));
    let a = b.advance(BridgeEvent::Failed("permission denied".into()));
    assert!(matches!(a, BridgeAction::Finish(Err(NetError::Io(ref m))) if m == "permission denied"));

    let (mut b, _) = NetworkManager::ensure_bridge(Some("eth9"));
    b.advance(ran(false, ""));
    b.advance(ran(true, ""));
    b.advance(ran(true, ""));
    b.advance(ran(true, ""));
    let a = b.advance(BridgeEvent::Written);
    assert!(matches!(a, BridgeAction::Run(ref c) if args(c)[7] == "eth9"));
    let a = b.advance(BridgeEvent::Ran { spawned: false, success: false, status: String::new(), stdout: String::new() });
    assert!(matches!(a, BridgeAction::Finish(Err(NetError::SpawnFailed))));
}

fn outcome(spawned: bool, success: bool) -> CommandOutcome {
    CommandOutcome { spawned, success, status: if success { "exit status: 0".into() } else { "exit status: 2".into() } }
}

#[test]
fn tap_setup_runs_in_order_and_stops_at_first_failure() {
    let (mut r, s) = NetworkManager::create_tap_run("tap-web");
    assert!(matches!(s, CommandStep::Run(ref c) if args(c) == ["tuntap", "add", "dev", "tap-web", "mode", "tap"]));
    let s = r.next(outcome(true, true));
    assert!(matches!(s, CommandStep::Run(ref c) if args(c) == ["link", "set", "tap-web", "master", "br0"]));
    let s = r.next(outcome(true, false));
    match s {
        CommandStep::Finish(Err(NetError::CommandFailed { status })) => assert_eq!(status, "exit status: 2"),
        other => panic!("{other:?}"),
    }
    assert!(matches!(r.next(outcome(true, true)), CommandStep::Finish(Err(NetError::Unexpected))));

    let (mut r, _) = NetworkManager::create_tap_run("tap-a");
    assert!(matches!(r.next(outcome(false, false)), CommandStep::Finish(Err(NetError::SpawnFailed))));

    let (mut r, _) = NetworkManager::create_tap_run("tap-a");
    assert!(matches!(r.next(outcome(true, true)), CommandStep::Run(_)));
    let s = r.next(outcome(true, true));
    assert!(matches!(s, CommandStep::Run(ref c) if args(c) == ["link", "set", "tap-a", "up"]));
    assert!(matches!(r.next(outcome(true, true)), CommandStep::Finish(Ok(()))));
}

#[test]
fn present_nat_rules_are_only_checked() {
    let (mut b, _) = NetworkManager::ensure_bridge(Some("eth1"));
    b.advance(ran(false, ""));
    b.advance(ran(true, ""));
    b.advance(ran(true, ""));
    b.advance(ran(true, ""));
    let a = b.advance(BridgeEvent::Written);
    assert!(matches!(a, BridgeAction::Run(ref c) if args(c)[2] == "-C"));
    let a = b.advance(ran(true, ""));
    assert!(matches!(a, BridgeAction::Run(ref c) if args(c)[0] == "-C"));
    let a = b.advance(ran(true, ""));
    assert!(matches!(a, BridgeAction::Run(ref c) if args(c)[0] == "-C"));
    assert!(matches!(b.advance(ran(true, "")), BridgeAction::Finish(Ok(()))));
}
