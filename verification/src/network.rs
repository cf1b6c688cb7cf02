//! The host side of the VM network: a bridge with NAT to an outbound
//! interface, and one tap device per VM.
//!
//! The commands are built here and run by the caller. Setting up the bridge
//! interleaves commands with decisions, so `BridgeSetup` decides and the
//! caller reports each outcome.

use vstd::prelude::*;
use crate::text::{decimal, decimal_string, lines_spec, split_lines, split_words, str_eq, words_spec};

verus! {

/// The bridge device.
pub const BRIDGE: &'static str = "br0";

/// The address of the bridge.
pub const BRIDGE_IP: &'static str = "172.16.0.1";

/// The network behind the bridge.
pub const BRIDGE_SUBNET: &'static str = "172.16.0.0/24";

/// The prefix length of the bridge address.
pub const BRIDGE_PREFIXLEN: u8 = 24;

/// A command: a program and its arguments.
#[derive(Clone, Debug)]
pub struct CommandLine {
    pub program: String,
    pub args: Vec<String>,
}

/// The content of a command.
pub struct CommandView {
    pub program: Seq<char>,
    pub args: Seq<Seq<char>>,
}

/// The contents of a list of strings.
pub open spec fn texts(v: Seq<String>) -> Seq<Seq<char>> {
    v.map_values(|s: String| s@)
}

impl View for CommandLine {
    type V = CommandView;

    open spec fn view(&self) -> CommandView {
        CommandView { program: self.program@, args: texts(self.args@) }
    }
}

/// The contents of a list of commands.
pub open spec fn commands_view(v: Seq<CommandLine>) -> Seq<CommandView> {
    v.map_values(|c: CommandLine| c@)
}

/// A command of the `ip` tool.
pub open spec fn ip_cmd(args: Seq<Seq<char>>) -> CommandView {
    CommandView { program: "ip"@, args }
}

fn owned_all(args: Vec<&str>) -> (res: Vec<String>)
    ensures
        texts(res@) == args@.map_values(|a: &str| a@),
{
    let mut out: Vec<String> = Vec::new();
    let mut k: usize = 0;
    while k < args.len()
        invariant
            k <= args@.len(),
            out@.len() == k,
            forall|j: int| 0 <= j < k ==> #[trigger] out@[j]@ == args@[j]@,
        decreases args@.len() - k,
    {
        out.push(args[k].to_owned());
        k = k + 1;
    }
    assert(texts(out@) =~= args@.map_values(|a: &str| a@));
    out
}

fn ip_command(args: Vec<&str>) -> (res: CommandLine)
    ensures
        res@ == ip_cmd(args@.map_values(|a: &str| a@)),
{
    CommandLine { program: "ip".to_owned(), args: owned_all(args) }
}

/// The commands that create a tap device and attach it to the bridge.
pub open spec fn create_tap_spec(tap: Seq<char>) -> Seq<CommandView> {
    seq![
        ip_cmd(seq!["tuntap"@, "add"@, "dev"@, tap, "mode"@, "tap"@]),
        ip_cmd(seq!["link"@, "set"@, tap, "master"@, BRIDGE@]),
        ip_cmd(seq!["link"@, "set"@, tap, "up"@]),
    ]
}

/// The address of the bridge with its prefix length.
pub open spec fn bridge_address_spec() -> Seq<char> {
    BRIDGE_IP@ + "/"@ + decimal(BRIDGE_PREFIXLEN as nat)
}

/// The commands that create the bridge, give it its address and bring it up.
pub open spec fn bridge_commands_spec() -> Seq<CommandView> {
    seq![
        ip_cmd(seq!["link"@, "add"@, BRIDGE@, "type"@, "bridge"@]),
        ip_cmd(seq!["addr"@, "add"@, bridge_address_spec(), "dev"@, BRIDGE@]),
        ip_cmd(seq!["link"@, "set"@, BRIDGE@, "up"@]),
    ]
}

/// The devices of the host network.
#[derive(Debug)]
pub struct NetworkManager;

impl NetworkManager {
    /// The commands that create the tap device, attach it to the bridge and
    /// bring it up; `create_tap_run` runs them in order, stopping at the
    /// first failure.
    pub fn create_tap(tap_name: &str) -> (res: Vec<CommandLine>)
        ensures
            commands_view(res@) == create_tap_spec(tap_name@),
    {
        let c0 = ip_command(vec!["tuntap", "add", "dev", tap_name, "mode", "tap"]);
        let c1 = ip_command(vec!["link", "set", tap_name, "master", BRIDGE]);
        let c2 = ip_command(vec!["link", "set", tap_name, "up"]);
        proof {
            assert(c0@.args =~= seq!["tuntap"@, "add"@, "dev"@, tap_name@, "mode"@, "tap"@]);
            assert(c1@.args =~= seq!["link"@, "set"@, tap_name@, "master"@, BRIDGE@]);
            assert(c2@.args =~= seq!["link"@, "set"@, tap_name@, "up"@]);
        }
        let res = vec![c0, c1, c2];
        assert(commands_view(res@) =~= create_tap_spec(tap_name@));
        res
    }

    /// The command that removes the tap device; its failure is only logged.
    pub fn delete_tap(tap_name: &str) -> (res: CommandLine)
        ensures
            res@ == ip_cmd(seq!["link"@, "del"@, tap_name@]),
    {
        let res = ip_command(vec!["link", "del", tap_name]);
        assert(res@.args =~= seq!["link"@, "del"@, tap_name@]);
        res
    }

    /// The commands that create the bridge, give it its address and bring it
    /// up.
    pub fn bridge_commands() -> (res: Vec<CommandLine>)
        ensures
            commands_view(res@) == bridge_commands_spec(),
    {
        let mut address = BRIDGE_IP.to_owned();
        address.append("/");
        let digits = decimal_string(BRIDGE_PREFIXLEN as u64);
        address.append(digits.as_str());
        let c0 = ip_command(vec!["link", "add", BRIDGE, "type", "bridge"]);
        let c1 = ip_command(vec!["addr", "add", address.as_str(), "dev", BRIDGE]);
        let c2 = ip_command(vec!["link", "set", BRIDGE, "up"]);
        proof {
            reveal_strlit("/");
            assert(c0@.args =~= seq!["link"@, "add"@, BRIDGE@, "type"@, "bridge"@]);
            assert(c1@.args =~= seq!["addr"@, "add"@, bridge_address_spec(), "dev"@, BRIDGE@]);
            assert(c2@.args =~= seq!["link"@, "set"@, BRIDGE@, "up"@]);
        }
        let res = vec![c0, c1, c2];
        assert(commands_view(res@) =~= bridge_commands_spec());
        res
    }

    /// The command whose success shows that the bridge exists.
    pub fn bridge_check() -> (res: CommandLine)
        ensures
            res@ == ip_cmd(seq!["link"@, "show"@, BRIDGE@]),
    {
        let res = ip_command(vec!["link", "show", BRIDGE]);
        assert(res@.args =~= seq!["link"@, "show"@, BRIDGE@]);
        res
    }

    /// The command that prints the default route.
    pub fn default_route_query() -> (res: CommandLine)
        ensures
            res@ == ip_cmd(seq!["route"@, "show"@, "default"@]),
    {
        let res = ip_command(vec!["route", "show", "default"]);
        assert(res@.args =~= seq!["route"@, "show"@, "default"@]);
        res
    }
}

/// A firewall rule: its table (the default table if `None`), its chain and
/// its match and target.
#[derive(Clone, Debug)]
pub struct IptablesRule {
    pub table: Option<String>,
    pub chain: String,
    pub args: Vec<String>,
}

/// The content of a firewall rule.
pub struct RuleView {
    pub table: Option<Seq<char>>,
    pub chain: Seq<char>,
    pub args: Seq<Seq<char>>,
}

impl View for IptablesRule {
    type V = RuleView;

    open spec fn view(&self) -> RuleView {
        RuleView {
            table: match self.table {
                Some(t) => Some(t@),
                None => None,
            },
            chain: self.chain@,
            args: texts(self.args@),
        }
    }
}

/// The rules that let the VMs reach the outside through `outbound`: masquerade
/// their traffic, forward it out, and forward the replies back.
pub open spec fn nat_rules_spec(outbound: Seq<char>) -> Seq<RuleView> {
    seq![
        RuleView {
            table: Some("nat"@),
            chain: "POSTROUTING"@,
            args: seq!["-s"@, BRIDGE_SUBNET@, "-o"@, outbound, "-j"@, "MASQUERADE"@],
        },
        RuleView {
            table: None,
            chain: "FORWARD"@,
            args: seq!["-i"@, BRIDGE@, "-o"@, outbound, "-j"@, "ACCEPT"@],
        },
        RuleView {
            table: None,
            chain: "FORWARD"@,
            args: seq![
                "-i"@,
                outbound,
                "-o"@,
                BRIDGE@,
                "-m"@,
                "state"@,
                "--state"@,
                "RELATED,ESTABLISHED"@,
                "-j"@,
                "ACCEPT"@,
            ],
        },
    ]
}

/// The rules that let the VMs reach the outside; see `nat_rules_spec`.
pub fn nat_rules(outbound: &str) -> (res: Vec<IptablesRule>)
    ensures
        res@.map_values(|r: IptablesRule| r@) == nat_rules_spec(outbound@),
{
    let r0 = IptablesRule {
        table: Some("nat".to_owned()),
        chain: "POSTROUTING".to_owned(),
        args: owned_all(vec!["-s", BRIDGE_SUBNET, "-o", outbound, "-j", "MASQUERADE"]),
    };
    let r1 = IptablesRule {
        table: None,
        chain: "FORWARD".to_owned(),
        args: owned_all(vec!["-i", BRIDGE, "-o", outbound, "-j", "ACCEPT"]),
    };
    let r2 = IptablesRule {
        table: None,
        chain: "FORWARD".to_owned(),
        args: owned_all(
            vec![
                "-i",
                outbound,
                "-o",
                BRIDGE,
                "-m",
                "state",
                "--state",
                "RELATED,ESTABLISHED",
                "-j",
                "ACCEPT",
            ],
        ),
    };
    proof {
        let spec = nat_rules_spec(outbound@);
        assert(r0@.args =~= spec[0].args);
        assert(r1@.args =~= spec[1].args);
        assert(r2@.args =~= spec[2].args);
        assert(r0@ == spec[0]);
        assert(r1@ == spec[1]);
        assert(r2@ == spec[2]);
    }
    let res = vec![r0, r1, r2];
    assert(res@.map_values(|r: IptablesRule| r@) =~= nat_rules_spec(outbound@));
    res
}

/// The arguments of `iptables` that check for the rule (`-C`) or append it
/// (`-A`).
pub open spec fn iptables_args_spec(rule: RuleView, flag: Seq<char>) -> Seq<Seq<char>> {
    let head = match rule.table {
        Some(t) => seq!["-t"@, t],
        None => Seq::empty(),
    };
    head + seq![flag, rule.chain] + rule.args
}

/// The `iptables` commands that check for the rule and that append it; the
/// second runs only where the first fails.
pub fn iptables_ensure(rule: &IptablesRule) -> (res: (CommandLine, CommandLine))
    ensures
        res.0@ == (CommandView { program: "iptables"@, args: iptables_args_spec(rule@, "-C"@) }),
        res.1@ == (CommandView { program: "iptables"@, args: iptables_args_spec(rule@, "-A"@) }),
{
    let mut check: Vec<String> = Vec::new();
    let mut add: Vec<String> = Vec::new();
    match &rule.table {
        Some(t) => {
            check.push("-t".to_owned());
            check.push(t.clone());
            add.push("-t".to_owned());
            add.push(t.clone());
        },
        None => {},
    }
    let ghost head = texts(check@);
    check.push("-C".to_owned());
    check.push(rule.chain.clone());
    add.push("-A".to_owned());
    add.push(rule.chain.clone());
    let ghost check_prefix = texts(check@);
    let ghost add_prefix = texts(add@);
    let mut k: usize = 0;
    while k < rule.args.len()
        invariant
            k <= rule.args@.len(),
            texts(check@) == check_prefix + texts(rule.args@).take(k as int),
            texts(add@) == add_prefix + texts(rule.args@).take(k as int),
        decreases rule.args@.len() - k,
    {
        let ghost c0 = check@;
        let ghost a0 = add@;
        check.push(rule.args[k].clone());
        add.push(rule.args[k].clone());
        proof {
            assert(texts(rule.args@).take(k + 1) =~= texts(rule.args@).take(k as int).push(
                rule.args@[k as int]@,
            ));
            assert(texts(check@) =~= texts(c0).push(rule.args@[k as int]@));
            assert(texts(add@) =~= texts(a0).push(rule.args@[k as int]@));
        }
        k = k + 1;
    }
    proof {
        assert(texts(rule.args@).take(rule.args@.len() as int) =~= texts(rule.args@));
        assert(texts(check@) =~= iptables_args_spec(rule@, "-C"@));
        assert(texts(add@) =~= iptables_args_spec(rule@, "-A"@));
    }
    (
        CommandLine { program: "iptables".to_owned(), args: check },
        CommandLine { program: "iptables".to_owned(), args: add },
    )
}

/// The word after the first `dev` among `words[k..]`, if there is one.
pub open spec fn dev_from(words: Seq<Seq<char>>, k: int) -> Option<Seq<char>>
    decreases words.len() - k,
{
    if k < 0 || k >= words.len() {
        None
    } else if words[k] == "dev"@ {
        if k + 1 < words.len() {
            Some(words[k + 1])
        } else {
            None
        }
    } else {
        dev_from(words, k + 1)
    }
}

/// The interface named in the first of `lines[k..]` whose first `dev` is
/// followed by a name other than `lo`.
pub open spec fn route_interface_from(lines: Seq<Seq<char>>, k: int) -> Option<Seq<char>>
    decreases lines.len() - k,
{
    if k < 0 || k >= lines.len() {
        None
    } else {
        match dev_from(words_spec(lines[k]), 0) {
            Some(w) => if w != "lo"@ {
                Some(w)
            } else {
                route_interface_from(lines, k + 1)
            },
            None => route_interface_from(lines, k + 1),
        }
    }
}

/// The outbound interface: the one that the default route names, or `eth0`
/// where the route could not be read or names none.
pub open spec fn default_interface_spec(route_output: Option<Seq<char>>) -> Seq<char> {
    match route_output {
        None => "eth0"@,
        Some(out) => match route_interface_from(lines_spec(out), 0) {
            Some(w) => w,
            None => "eth0"@,
        },
    }
}

fn dev_word(words: &Vec<String>) -> (res: Option<String>)
    ensures
        match res {
            Some(w) => dev_from(texts(words@), 0) == Some(w@),
            None => dev_from(texts(words@), 0) is None,
        },
{
    let ghost ws = texts(words@);
    let mut k: usize = 0;
    while k < words.len()
        invariant
            ws == texts(words@),
            k <= words@.len(),
            dev_from(ws, 0) == dev_from(ws, k as int),
        decreases words@.len() - k,
    {
        assert(ws[k as int] == words@[k as int]@);
        if str_eq(words[k].as_str(), "dev") {
            if k + 1 < words.len() {
                assert(ws[k + 1] == words@[k + 1]@);
                return Some(words[k + 1].clone());
            } else {
                return None;
            }
        }
        k = k + 1;
    }
    None
}

fn interface_from_output(out: &str) -> (res: String)
    ensures
        res@ == default_interface_spec(Some(out@)),
{
    let lines = split_lines(out);
    let ghost ls = texts(lines@);
    assert(ls =~= lines_spec(out@));
    let mut k: usize = 0;
    while k < lines.len()
        invariant
            ls == texts(lines@),
            ls == lines_spec(out@),
            k <= lines@.len(),
            route_interface_from(ls, 0) == route_interface_from(ls, k as int),
        decreases lines@.len() - k,
    {
        assert(ls[k as int] == lines@[k as int]@);
        let words = split_words(lines[k].as_str());
        proof {
            assert(texts(words@) =~= words_spec(ls[k as int]));
        }
        match dev_word(&words) {
            Some(w) => {
                if !str_eq(w.as_str(), "lo") {
                    assert(route_interface_from(ls, k as int) == Some(w@));
                    return w;
                }
            },
            None => {},
        }
        k = k + 1;
    }
    "eth0".to_owned()
}

/// The outbound interface from the output of the default-route query
/// (`None` where the query could not run or failed); see
/// `default_interface_spec`.
pub fn detect_default_interface(route_output: Option<&str>) -> (res: String)
    ensures
        res@ == default_interface_spec(
            match route_output {
                Some(o) => Some(o@),
                None => None,
            },
        ),
{
    match route_output {
        Some(out) => interface_from_output(out),
        None => "eth0".to_owned(),
    }
}

/// The file that turns on IPv4 forwarding, and what is written to it.
pub open spec fn ip_forward_file_spec() -> (Seq<char>, Seq<char>) {
    ("/proc/sys/net/ipv4/ip_forward"@, "1\n"@)
}

/// Why the bridge could not be set up.
#[derive(Debug)]
pub enum NetError {
    /// A command could not be started.
    SpawnFailed,
    /// A command failed, with how it exited.
    CommandFailed { status: String },
    /// Writing a file failed, with the message.
    Io(String),
    /// An outcome arrived that does not answer the pending action.
    Unexpected,
}

/// A piece of outside work that setting up the bridge asks for.
#[derive(Debug)]
pub enum BridgeAction {
    /// Run the command; answered by `Ran`.
    Run(CommandLine),
    /// Write the contents to the file; answered by `Written` or `Failed`.
    WriteFile { path: String, contents: String },
    /// The setup is over, with its outcome.
    Finish(Result<(), NetError>),
}

/// The content of a `BridgeAction`.
pub enum BridgeActionView {
    Run(CommandView),
    WriteFile { path: Seq<char>, contents: Seq<char> },
    Finish(Result<(), NetError>),
}

impl View for BridgeAction {
    type V = BridgeActionView;

    open spec fn view(&self) -> BridgeActionView {
        match self {
            BridgeAction::Run(c) => BridgeActionView::Run(c@),
            BridgeAction::WriteFile { path, contents } => BridgeActionView::WriteFile {
                path: path@,
                contents: contents@,
            },
            BridgeAction::Finish(r) => BridgeActionView::Finish(*r),
        }
    }
}

/// The outcome of a piece of outside work of the setup.
#[derive(Debug)]
pub enum BridgeEvent {
    /// Whether the command could be started, whether it succeeded, how it
    /// exited, and what it printed.
    Ran { spawned: bool, success: bool, status: String, stdout: String },
    /// The file was written.
    Written,
    /// The file could not be written, with the message.
    Failed(String),
}

/// The content of a `BridgeEvent`.
pub enum BridgeEventView {
    Ran { spawned: bool, success: bool, status: String, stdout: Seq<char> },
    Written,
    Failed(String),
}

impl View for BridgeEvent {
    type V = BridgeEventView;

    open spec fn view(&self) -> BridgeEventView {
        match self {
            BridgeEvent::Ran { spawned, success, status, stdout } => BridgeEventView::Ran {
                spawned: *spawned,
                success: *success,
                status: *status,
                stdout: stdout@,
            },
            BridgeEvent::Written => BridgeEventView::Written,
            BridgeEvent::Failed(m) => BridgeEventView::Failed(*m),
        }
    }
}

/// Where the setup stands.
#[derive(Clone, Copy, Debug, PartialEq, Eq, Structural)]
pub enum BridgePhase {
    AwaitCheck,
    AwaitCreate,
    AwaitForward,
    AwaitRoute,
    AwaitRuleCheck,
    AwaitRuleAdd,
    Finished,
}

/// Setting up the bridge: if it does not exist, create it, turn on
/// forwarding and make sure the NAT rules for the outbound interface (the
/// given one, or the one of the default route) are in place.
#[derive(Debug)]
pub struct BridgeSetup {
    outbound: Option<String>,
    phase: BridgePhase,
    step: usize,
}

/// The content of a `BridgeSetup`.
pub struct BridgeView {
    pub outbound: Option<Seq<char>>,
    pub phase: BridgePhase,
    pub step: nat,
}

impl View for BridgeSetup {
    type V = BridgeView;

    closed spec fn view(&self) -> BridgeView {
        BridgeView {
            outbound: match self.outbound {
                Some(o) => Some(o@),
                None => None,
            },
            phase: self.phase,
            step: self.step as nat,
        }
    }
}

/// The `iptables` command that checks for or appends the rule.
pub open spec fn iptables_cmd(rule: RuleView, flag: Seq<char>) -> CommandView {
    CommandView { program: "iptables"@, args: iptables_args_spec(rule, flag) }
}

/// The setup finishes with the outcome.
pub open spec fn bridge_finish(b: BridgeView, r: Result<(), NetError>) -> (
    BridgeView,
    BridgeActionView,
) {
    (BridgeView { phase: BridgePhase::Finished, ..b }, BridgeActionView::Finish(r))
}

/// The setup checks for the NAT rule number `k` for the outbound interface.
pub open spec fn check_rule(b: BridgeView, outbound: Seq<char>, k: nat) -> (
    BridgeView,
    BridgeActionView,
) {
    (
        BridgeView { outbound: Some(outbound), phase: BridgePhase::AwaitRuleCheck, step: k },
        BridgeActionView::Run(iptables_cmd(nat_rules_spec(outbound)[k as int], "-C"@)),
    )
}

/// The setup goes on after rule number `b.step` is in place.
pub open spec fn next_rule(b: BridgeView) -> (BridgeView, BridgeActionView) {
    if b.step + 1 < 3 {
        check_rule(b, b.outbound->0, b.step + 1)
    } else {
        bridge_finish(b, Ok(()))
    }
}

/// A command that must succeed failed: the setup finishes with its error.
pub open spec fn command_error(spawned: bool, status: String) -> NetError {
    if !spawned {
        NetError::SpawnFailed
    } else {
        NetError::CommandFailed { status }
    }
}

/// One decision of the setup.
pub open spec fn bridge_step(b: BridgeView, ev: BridgeEventView) -> (BridgeView, BridgeActionView) {
    match (b.phase, ev) {
        (BridgePhase::AwaitCheck, BridgeEventView::Ran { spawned, success, .. }) => if spawned
            && success {
            bridge_finish(b, Ok(()))
        } else {
            (
                BridgeView { phase: BridgePhase::AwaitCreate, step: 0, ..b },
                BridgeActionView::Run(bridge_commands_spec()[0]),
            )
        },
        (BridgePhase::AwaitCreate, BridgeEventView::Ran { spawned, success, status, .. }) => if !(
        spawned && success) {
            bridge_finish(b, Err(command_error(spawned, status)))
        } else if b.step + 1 < 3 {
            (
                BridgeView { step: b.step + 1, ..b },
                BridgeActionView::Run(bridge_commands_spec()[(b.step + 1) as int]),
            )
        } else {
            (
                BridgeView { phase: BridgePhase::AwaitForward, ..b },
                BridgeActionView::WriteFile {
                    path: ip_forward_file_spec().0,
                    contents: ip_forward_file_spec().1,
                },
            )
        },
        (BridgePhase::AwaitForward, BridgeEventView::Written) => match b.outbound {
            Some(o) => check_rule(b, o, 0),
            None => (
                BridgeView { phase: BridgePhase::AwaitRoute, ..b },
                BridgeActionView::Run(ip_cmd(seq!["route"@, "show"@, "default"@])),
            ),
        },
        (BridgePhase::AwaitForward, BridgeEventView::Failed(m)) => bridge_finish(
            b,
            Err(NetError::Io(m)),
        ),
        (BridgePhase::AwaitRoute, BridgeEventView::Ran { spawned, success, stdout, .. }) => {
            let o = default_interface_spec(
                if spawned && success {
                    Some(stdout)
                } else {
                    None
                },
            );
            check_rule(b, o, 0)
        },
        (BridgePhase::AwaitRuleCheck, BridgeEventView::Ran { spawned, success, .. }) => if !spawned {
            bridge_finish(b, Err(NetError::SpawnFailed))
        } else if success {
            next_rule(b)
        } else {
            (
                BridgeView { phase: BridgePhase::AwaitRuleAdd, ..b },
                BridgeActionView::Run(iptables_cmd(nat_rules_spec(b.outbound->0)[b.step as int], "-A"@)),
            )
        },
        (BridgePhase::AwaitRuleAdd, BridgeEventView::Ran { spawned, success, status, .. }) => if !(
        spawned && success) {
            bridge_finish(b, Err(command_error(spawned, status)))
        } else {
            next_rule(b)
        },
        (BridgePhase::Finished, _) => (b, BridgeActionView::Finish(Err(NetError::Unexpected))),
        _ => bridge_finish(b, Err(NetError::Unexpected)),
    }
}

/// The states that the setup keeps: a step within its list, and an outbound
/// interface once the rules are being put in place.
pub open spec fn bridge_wf(b: BridgeView) -> bool {
    &&& b.step < 3
    &&& (b.phase == BridgePhase::AwaitRuleCheck || b.phase == BridgePhase::AwaitRuleAdd)
        ==> b.outbound is Some
}

impl NetworkManager {
    /// Makes sure the bridge exists: begins the setup (see `BridgeSetup`),
    /// whose first step checks whether the bridge exists.
    pub fn ensure_bridge(outbound_if: Option<&str>) -> (res: (BridgeSetup, BridgeAction))
        ensures
            res.0@ == (BridgeView {
                outbound: match outbound_if {
                    Some(o) => Some(o@),
                    None => None,
                },
                phase: BridgePhase::AwaitCheck,
                step: 0,
            }),
            bridge_wf(res.0@),
            res.1@ == BridgeActionView::Run(ip_cmd(seq!["link"@, "show"@, BRIDGE@])),
    {
        let b = BridgeSetup {
            outbound: match outbound_if {
                Some(o) => Some(o.to_owned()),
                None => None,
            },
            phase: BridgePhase::AwaitCheck,
            step: 0,
        };
        (b, BridgeAction::Run(NetworkManager::bridge_check()))
    }
}

impl BridgeSetup {
    /// Where the setup stands.
    pub fn phase(&self) -> (res: BridgePhase)
        ensures
            res == self@.phase,
    {
        self.phase
    }

    fn finish(&mut self, r: Result<(), NetError>) -> (res: BridgeAction)
        requires
            bridge_wf(old(self)@),
        ensures
            (final(self)@, res@) == bridge_finish(old(self)@, r),
            bridge_wf(final(self)@),
    {
        self.phase = BridgePhase::Finished;
        BridgeAction::Finish(r)
    }

    fn check_rule(&mut self, outbound: String, k: usize) -> (res: BridgeAction)
        requires
            k < 3,
        ensures
            (final(self)@, res@) == check_rule(old(self)@, outbound@, k as nat),
            bridge_wf(final(self)@),
    {
        let mut rules = nat_rules(outbound.as_str());
        assert(rules@.map_values(|r: IptablesRule| r@).len() == 3);
        assert(rules@.map_values(|r: IptablesRule| r@)[k as int] == rules@[k as int]@);
        let rule = rules.remove(k);
        let (check, _) = iptables_ensure(&rule);
        self.outbound = Some(outbound);
        self.phase = BridgePhase::AwaitRuleCheck;
        self.step = k;
        BridgeAction::Run(check)
    }

    fn next_rule(&mut self) -> (res: BridgeAction)
        requires
            bridge_wf(old(self)@),
            old(self)@.outbound is Some,
        ensures
            (final(self)@, res@) == next_rule(old(self)@),
            bridge_wf(final(self)@),
    {
        if self.step + 1 < 3 {
            let o = match &self.outbound {
                Some(o) => o.clone(),
                None => String::new(),
            };
            self.check_rule(o, self.step + 1)
        } else {
            self.finish(Ok(()))
        }
    }

    /// Takes the outcome of the pending action and returns the next one; see
    /// `bridge_step`.
    pub fn advance(&mut self, ev: BridgeEvent) -> (res: BridgeAction)
        requires
            bridge_wf(old(self)@),
        ensures
            (final(self)@, res@) == bridge_step(old(self)@, ev@),
            bridge_wf(final(self)@),
    {
        match (self.phase, ev) {
            (BridgePhase::AwaitCheck, BridgeEvent::Ran { spawned, success, .. }) => {
                if spawned && success {
                    self.finish(Ok(()))
                } else {
                    self.phase = BridgePhase::AwaitCreate;
                    self.step = 0;
                    let mut cmds = NetworkManager::bridge_commands();
                    assert(commands_view(cmds@).len() == 3);
                    assert(commands_view(cmds@)[0] == cmds@[0]@);
                    BridgeAction::Run(cmds.remove(0))
                }
            },
            (BridgePhase::AwaitCreate, BridgeEvent::Ran { spawned, success, status, .. }) => {
                if !(spawned && success) {
                    if !spawned {
                        self.finish(Err(NetError::SpawnFailed))
                    } else {
                        self.finish(Err(NetError::CommandFailed { status }))
                    }
                } else if self.step + 1 < 3 {
                    self.step = self.step + 1;
                    let mut cmds = NetworkManager::bridge_commands();
                    assert(commands_view(cmds@).len() == 3);
                    assert(commands_view(cmds@)[self.step as int] == cmds@[self.step as int]@);
                    BridgeAction::Run(cmds.remove(self.step))
                } else {
                    self.phase = BridgePhase::AwaitForward;
                    BridgeAction::WriteFile {
                        path: "/proc/sys/net/ipv4/ip_forward".to_owned(),
                        contents: "1\n".to_owned(),
                    }
                }
            },
            (BridgePhase::AwaitForward, BridgeEvent::Written) => match &self.outbound {
                Some(o) => {
                    let o = o.clone();
                    self.check_rule(o, 0)
                },
                None => {
                    self.phase = BridgePhase::AwaitRoute;
                    BridgeAction::Run(NetworkManager::default_route_query())
                },
            },
            (BridgePhase::AwaitForward, BridgeEvent::Failed(m)) => self.finish(Err(NetError::Io(m))),
            (BridgePhase::AwaitRoute, BridgeEvent::Ran { spawned, success, stdout, .. }) => {
                let o = if spawned && success {
                    detect_default_interface(Some(stdout.as_str()))
                } else {
                    detect_default_interface(None)
                };
                self.check_rule(o, 0)
            },
            (BridgePhase::AwaitRuleCheck, BridgeEvent::Ran { spawned, success, .. }) => {
                if !spawned {
                    self.finish(Err(NetError::SpawnFailed))
                } else if success {
                    self.next_rule()
                } else {
                    let o = match &self.outbound {
                        Some(o) => o.clone(),
                        None => String::new(),
                    };
                    let mut rules = nat_rules(o.as_str());
                    assert(rules@.map_values(|r: IptablesRule| r@).len() == 3);
                    assert(rules@.map_values(|r: IptablesRule| r@)[self.step as int]
                        == rules@[self.step as int]@);
                    let rule = rules.remove(self.step);
                    let (_, add) = iptables_ensure(&rule);
                    self.phase = BridgePhase::AwaitRuleAdd;
                    BridgeAction::Run(add)
                }
            },
            (BridgePhase::AwaitRuleAdd, BridgeEvent::Ran { spawned, success, status, .. }) => {
                if !(spawned && success) {
                    if !spawned {
                        self.finish(Err(NetError::SpawnFailed))
                    } else {
                        self.finish(Err(NetError::CommandFailed { status }))
                    }
                } else {
                    self.next_rule()
                }
            },
            (BridgePhase::Finished, _) => BridgeAction::Finish(Err(NetError::Unexpected)),
            _ => self.finish(Err(NetError::Unexpected)),
        }
    }
}

/// An existing bridge is left as it is; a firewall rule is appended only
/// where the check for it failed, and the setup succeeds only after the last
/// rule is in place.
pub proof fn lemma_bridge_setup(b: BridgeView, ev: BridgeEventView)
    requires
        bridge_wf(b),
    ensures
        b.phase == BridgePhase::AwaitCheck && (ev matches BridgeEventView::Ran { spawned, success, .. }
            && spawned && success) ==> bridge_step(b, ev).1 == BridgeActionView::Finish(Ok(())),
        bridge_step(b, ev).0.phase == BridgePhase::AwaitRuleAdd ==> b.phase
            == BridgePhase::AwaitRuleCheck && (ev matches BridgeEventView::Ran { spawned, success, .. }
            && spawned && !success),
        bridge_step(b, ev).1 == BridgeActionView::Finish(Ok(())) ==> b.phase
            == BridgePhase::AwaitCheck || b.step == 2,
{
}

/// A setup that checks the NAT rules finds them all in place: it only checks
/// for them (`-C`) one after the other, appends none (`-A`), and succeeds.
pub proof fn lemma_present_rules_are_kept(
    outbound: Seq<char>,
    b: BridgeView,
    ev0: BridgeEventView,
    ev1: BridgeEventView,
    ev2: BridgeEventView,
)
    requires
        ev0 matches BridgeEventView::Ran { spawned, success, .. } && spawned && success,
        ev1 matches BridgeEventView::Ran { spawned, success, .. } && spawned && success,
        ev2 matches BridgeEventView::Ran { spawned, success, .. } && spawned && success,
    ensures
        ({
            let rules = nat_rules_spec(outbound);
            let (b0, a0) = check_rule(b, outbound, 0);
            let (b1, a1) = bridge_step(b0, ev0);
            let (b2, a2) = bridge_step(b1, ev1);
            let (b3, a3) = bridge_step(b2, ev2);
            &&& a0 == BridgeActionView::Run(iptables_cmd(rules[0], "-C"@))
            &&& a1 == BridgeActionView::Run(iptables_cmd(rules[1], "-C"@))
            &&& a2 == BridgeActionView::Run(iptables_cmd(rules[2], "-C"@))
            &&& a3 == BridgeActionView::Finish(Ok(()))
            &&& b3.phase == BridgePhase::Finished
        }),
{
}

/// How a command that must succeed ended: whether it could be started,
/// whether it succeeded, and how it exited.
#[derive(Debug)]
pub struct CommandOutcome {
    pub spawned: bool,
    pub success: bool,
    pub status: String,
}

/// Whether a command outcome lets a series go on.
pub open spec fn outcome_ok(o: CommandOutcome) -> bool {
    o.spawned && o.success
}

/// A step of running a series of commands.
#[derive(Debug)]
pub enum CommandStep {
    /// Run the command; report how it ended.
    Run(CommandLine),
    /// The series is over, with its outcome.
    Finish(Result<(), NetError>),
}

/// The content of a `CommandStep`.
pub enum CommandStepView {
    Run(CommandView),
    Finish(Result<(), NetError>),
}

impl View for CommandStep {
    type V = CommandStepView;

    open spec fn view(&self) -> CommandStepView {
        match self {
            CommandStep::Run(c) => CommandStepView::Run(c@),
            CommandStep::Finish(r) => CommandStepView::Finish(*r),
        }
    }
}

/// Running a series of commands in order: each runs only after the one
/// before it succeeded, and the first that fails ends the series with its
/// error.
#[derive(Debug)]
pub struct CommandRun {
    commands: Vec<CommandLine>,
    started: usize,
    done: bool,
}

/// The content of a `CommandRun`: the commands, how many were started, and
/// whether the series is over.
pub struct CommandRunView {
    pub commands: Seq<CommandView>,
    pub started: nat,
    pub done: bool,
}

impl View for CommandRun {
    type V = CommandRunView;

    closed spec fn view(&self) -> CommandRunView {
        CommandRunView {
            commands: commands_view(self.commands@),
            started: self.started as nat,
            done: self.done,
        }
    }
}

/// The bound that a series keeps: while it goes on, at least one and at most
/// all of its commands were started.
pub open spec fn command_run_wf(r: CommandRunView) -> bool {
    !r.done ==> 1 <= r.started <= r.commands.len()
}

/// The start of a series: its first command, or success if it has none.
pub open spec fn command_start(commands: Seq<CommandView>) -> (CommandRunView, CommandStepView) {
    if commands.len() == 0 {
        (CommandRunView { commands, started: 0, done: true }, CommandStepView::Finish(Ok(())))
    } else {
        (CommandRunView { commands, started: 1, done: false }, CommandStepView::Run(commands[0]))
    }
}

/// One decision of a series, given how the last command ended.
pub open spec fn command_step(r: CommandRunView, o: CommandOutcome) -> (
    CommandRunView,
    CommandStepView,
) {
    if r.done {
        (r, CommandStepView::Finish(Err(NetError::Unexpected)))
    } else if !outcome_ok(o) {
        (
            CommandRunView { done: true, ..r },
            CommandStepView::Finish(Err(command_error(o.spawned, o.status))),
        )
    } else if r.started < r.commands.len() {
        (
            CommandRunView { started: r.started + 1, ..r },
            CommandStepView::Run(r.commands[r.started as int]),
        )
    } else {
        (CommandRunView { done: true, ..r }, CommandStepView::Finish(Ok(())))
    }
}

/// The steps that a series takes on the outcomes, one per outcome.
pub open spec fn command_trace(r: CommandRunView, outcomes: Seq<CommandOutcome>) -> Seq<
    CommandStepView,
>
    decreases outcomes.len(),
{
    if outcomes.len() == 0 {
        Seq::empty()
    } else {
        let (r1, s) = command_step(r, outcomes[0]);
        seq![s] + command_trace(r1, outcomes.drop_first())
    }
}

impl CommandLine {
    /// A copy of the command.
    pub fn duplicate(&self) -> (res: CommandLine)
        ensures
            res@ == self@,
    {
        let mut args: Vec<String> = Vec::new();
        let mut k: usize = 0;
        while k < self.args.len()
            invariant
                k <= self.args@.len(),
                args@.len() == k,
                forall|j: int| 0 <= j < k ==> #[trigger] args@[j]@ == self.args@[j]@,
            decreases self.args@.len() - k,
        {
            args.push(self.args[k].clone());
            k = k + 1;
        }
        let res = CommandLine { program: self.program.clone(), args };
        assert(res@.args =~= self@.args);
        res
    }
}

impl CommandRun {
    /// Begins running the commands; see `command_start`.
    pub fn new(commands: Vec<CommandLine>) -> (res: (CommandRun, CommandStep))
        ensures
            (res.0@, res.1@) == command_start(commands_view(commands@)),
            command_run_wf(res.0@),
    {
        if commands.len() == 0 {
            (CommandRun { commands, started: 0, done: true }, CommandStep::Finish(Ok(())))
        } else {
            let first = commands[0].duplicate();
            (CommandRun { commands, started: 1, done: false }, CommandStep::Run(first))
        }
    }

    /// Takes how the last command ended and returns the next step; see
    /// `command_step`.
    pub fn next(&mut self, o: CommandOutcome) -> (res: CommandStep)
        requires
            command_run_wf(old(self)@),
        ensures
            (final(self)@, res@) == command_step(old(self)@, o),
            command_run_wf(final(self)@),
    {
        if self.done {
            CommandStep::Finish(Err(NetError::Unexpected))
        } else if !(o.spawned && o.success) {
            self.done = true;
            if !o.spawned {
                CommandStep::Finish(Err(NetError::SpawnFailed))
            } else {
                CommandStep::Finish(Err(NetError::CommandFailed { status: o.status }))
            }
        } else if self.started < self.commands.len() {
            let c = self.commands[self.started].duplicate();
            self.started = self.started + 1;
            CommandStep::Run(c)
        } else {
            self.done = true;
            CommandStep::Finish(Ok(()))
        }
    }
}

impl NetworkManager {
    /// Begins creating the tap device: the commands of `create_tap`, run in
    /// order, stopping at the first that fails.
    pub fn create_tap_run(tap_name: &str) -> (res: (CommandRun, CommandStep))
        ensures
            (res.0@, res.1@) == command_start(create_tap_spec(tap_name@)),
            command_run_wf(res.0@),
    {
        CommandRun::new(NetworkManager::create_tap(tap_name))
    }
}

proof fn lemma_command_trace_done(r: CommandRunView, a: Seq<CommandOutcome>)
    requires
        r.done,
    ensures
        command_trace(r, a).len() == a.len(),
        forall|j: int|
            0 <= j < a.len() ==> #[trigger] command_trace(r, a)[j] == CommandStepView::Finish(
                Err(NetError::Unexpected),
            ),
    decreases a.len(),
{
    if a.len() > 0 {
        lemma_command_trace_done(r, a.drop_first());
        let t = command_trace(r, a);
        assert forall|j: int| 0 <= j < a.len() implies #[trigger] t[j] == CommandStepView::Finish(
            Err(NetError::Unexpected),
        ) by {
            if j > 0 {
                assert(t[j] == command_trace(r, a.drop_first())[j - 1]);
            }
        }
    }
}

proof fn lemma_command_trace_fail(r: CommandRunView, a: Seq<CommandOutcome>, k: int)
    requires
        command_run_wf(r),
        !r.done,
        0 <= k < a.len(),
        r.started + k <= r.commands.len(),
        forall|j: int| 0 <= j < k ==> outcome_ok(#[trigger] a[j]),
        !outcome_ok(a[k]),
    ensures
        command_trace(r, a).len() == a.len(),
        forall|j: int|
            0 <= j < k ==> #[trigger] command_trace(r, a)[j] == CommandStepView::Run(
                r.commands[r.started + j],
            ),
        command_trace(r, a)[k] == CommandStepView::Finish(
            Err(command_error(a[k].spawned, a[k].status)),
        ),
        forall|j: int|
            k < j < a.len() ==> #[trigger] command_trace(r, a)[j] == CommandStepView::Finish(
                Err(NetError::Unexpected),
            ),
    decreases k,
{
    let (r1, s) = command_step(r, a[0]);
    let rest = a.drop_first();
    let t = command_trace(r, a);
    assert(t == seq![s] + command_trace(r1, rest));
    if k == 0 {
        lemma_command_trace_done(r1, rest);
        assert forall|j: int| 0 < j < a.len() implies #[trigger] t[j] == CommandStepView::Finish(
            Err(NetError::Unexpected),
        ) by {
            assert(t[j] == command_trace(r1, rest)[j - 1]);
        }
    } else {
        assert(outcome_ok(a[0]));
        assert forall|j: int| 0 <= j < k - 1 implies outcome_ok(#[trigger] rest[j]) by {
            assert(rest[j] == a[j + 1]);
        }
        lemma_command_trace_fail(r1, rest, k - 1);
        assert forall|j: int| 0 <= j < k implies #[trigger] t[j] == CommandStepView::Run(
            r.commands[r.started + j],
        ) by {
            if j > 0 {
                assert(t[j] == command_trace(r1, rest)[j - 1]);
            }
        }
        assert(t[k] == command_trace(r1, rest)[k - 1]);
        assert forall|j: int| k < j < a.len() implies #[trigger] t[j] == CommandStepView::Finish(
            Err(NetError::Unexpected),
        ) by {
            assert(t[j] == command_trace(r1, rest)[j - 1]);
        }
    }
}

proof fn lemma_command_trace_success(r: CommandRunView, a: Seq<CommandOutcome>)
    requires
        command_run_wf(r),
        !r.done,
        a.len() == r.commands.len() - r.started + 1,
        forall|j: int| 0 <= j < a.len() ==> outcome_ok(#[trigger] a[j]),
    ensures
        command_trace(r, a).len() == a.len(),
        forall|j: int|
            0 <= j < a.len() - 1 ==> #[trigger] command_trace(r, a)[j] == CommandStepView::Run(
                r.commands[r.started + j],
            ),
        command_trace(r, a)[a.len() - 1] == CommandStepView::Finish(Ok(())),
    decreases a.len(),
{
    let (r1, s) = command_step(r, a[0]);
    let rest = a.drop_first();
    let t = command_trace(r, a);
    assert(outcome_ok(a[0]));
    assert(t == seq![s] + command_trace(r1, rest));
    if a.len() > 1 {
        assert forall|j: int| 0 <= j < rest.len() implies outcome_ok(#[trigger] rest[j]) by {
            assert(rest[j] == a[j + 1]);
        }
        lemma_command_trace_success(r1, rest);
        assert forall|j: int| 0 <= j < a.len() - 1 implies #[trigger] t[j] == CommandStepView::Run(
            r.commands[r.started + j],
        ) by {
            if j > 0 {
                assert(t[j] == command_trace(r1, rest)[j - 1]);
            }
        }
        assert(t[a.len() - 1] == command_trace(r1, rest)[a.len() - 2]);
    }
}

/// Creating a tap device runs its commands in order and none after the
/// first that fails: if the first `k` commands succeed and command `k` does
/// not, exactly the commands `0..=k` run and the series ends with that
/// command's error; if all three succeed, it ends with success.
pub proof fn lemma_tap_stops_at_first_failure(
    tap: Seq<char>,
    outcomes: Seq<CommandOutcome>,
    k: int,
)
    requires
        0 <= k < outcomes.len(),
        k < 3,
        forall|j: int| 0 <= j < k ==> outcome_ok(#[trigger] outcomes[j]),
        !outcome_ok(outcomes[k]),
    ensures
        ({
            let cmds = create_tap_spec(tap);
            let (r0, s0) = command_start(cmds);
            let t = command_trace(r0, outcomes);
            &&& s0 == CommandStepView::Run(cmds[0])
            &&& t.len() == outcomes.len()
            &&& forall|j: int| 0 <= j < k ==> #[trigger] t[j] == CommandStepView::Run(cmds[j + 1])
            &&& t[k] == CommandStepView::Finish(
                Err(command_error(outcomes[k].spawned, outcomes[k].status)),
            )
            &&& forall|j: int|
                k < j < outcomes.len() ==> #[trigger] t[j] == CommandStepView::Finish(
                    Err(NetError::Unexpected),
                )
        }),
{
    let (r0, s0) = command_start(create_tap_spec(tap));
    lemma_command_trace_fail(r0, outcomes, k);
}

/// Creating a tap device whose three commands all succeed runs them in
/// order and ends with success.
pub proof fn lemma_tap_all_succeed(tap: Seq<char>, outcomes: Seq<CommandOutcome>)
    requires
        outcomes.len() == 3,
        forall|j: int| 0 <= j < 3 ==> outcome_ok(#[trigger] outcomes[j]),
    ensures
        ({
            let cmds = create_tap_spec(tap);
            let (r0, s0) = command_start(cmds);
            let t = command_trace(r0, outcomes);
            &&& s0 == CommandStepView::Run(cmds[0])
            &&& t == seq![
                CommandStepView::Run(cmds[1]),
                CommandStepView::Run(cmds[2]),
                CommandStepView::Finish(Ok(())),
            ]
        }),
{
    let (r0, s0) = command_start(create_tap_spec(tap));
    lemma_command_trace_success(r0, outcomes);
    assert(command_trace(r0, outcomes) =~= seq![
        CommandStepView::Run(create_tap_spec(tap)[1]),
        CommandStepView::Run(create_tap_spec(tap)[2]),
        CommandStepView::Finish(Ok(())),
    ]);
}

/// The rule that the setup appends after a failed check is the very rule it
/// checked, for the same outbound interface, with `-A` in place of `-C`; the
/// appended command names that interface.
pub proof fn lemma_rule_added_is_rule_checked(
    b: BridgeView,
    outbound: Seq<char>,
    k: nat,
    ev: BridgeEventView,
)
    requires
        k < 3,
        ev matches BridgeEventView::Ran { spawned, success, .. } && spawned && !success,
    ensures
        ({
            let rule = nat_rules_spec(outbound)[k as int];
            let (b1, a1) = check_rule(b, outbound, k);
            let (b2, a2) = bridge_step(b1, ev);
            &&& a1 == BridgeActionView::Run(iptables_cmd(rule, "-C"@))
            &&& a2 == BridgeActionView::Run(iptables_cmd(rule, "-A"@))
            &&& b2.outbound == Some(outbound)
            &&& iptables_args_spec(rule, "-A"@).contains(outbound)
        }),
{
    let rule = nat_rules_spec(outbound)[k as int];
    let args = iptables_args_spec(rule, "-A"@);
    let head = match rule.table {
        Some(t) => seq!["-t"@, t],
        None => Seq::<Seq<char>>::empty(),
    };
    let off: int = head.len() as int + 2;
    if k == 0 {
        assert(args[off + 3] == outbound);
    } else if k == 1 {
        assert(args[off + 3] == outbound);
    } else {
        assert(args[off + 1] == outbound);
    }
}

/// The rules are set up for the configured outbound interface, or, where
/// none is configured, for the interface that the default route names; and
/// once chosen, the interface never changes while the rules are set up.
pub proof fn lemma_rules_use_outbound(b: BridgeView, ev: BridgeEventView)
    requires
        bridge_wf(b),
    ensures
        b.phase == BridgePhase::AwaitForward && ev == BridgeEventView::Written && b.outbound is Some
            ==> bridge_step(b, ev) == check_rule(b, b.outbound->0, 0),
        b.phase == BridgePhase::AwaitRoute ==> (ev matches BridgeEventView::Ran {
            spawned,
            success,
            stdout,
            ..
        } ==> bridge_step(b, ev) == check_rule(
            b,
            default_interface_spec(
                if spawned && success {
                    Some(stdout)
                } else {
                    None
                },
            ),
            0,
        )),
        (b.phase == BridgePhase::AwaitRuleCheck || b.phase == BridgePhase::AwaitRuleAdd)
            ==> bridge_step(b, ev).0.outbound == b.outbound && (bridge_step(b, ev).1 matches BridgeActionView::Run(
            c,
        ) ==> exists|k: int, flag: Seq<char>|
            0 <= k < 3 && c == iptables_cmd(nat_rules_spec(b.outbound->0)[k], flag)),
{
    if b.phase == BridgePhase::AwaitRuleCheck || b.phase == BridgePhase::AwaitRuleAdd {
        let (b2, a) = bridge_step(b, ev);
        if let BridgeActionView::Run(c) = a {
            if b.phase == BridgePhase::AwaitRuleCheck && (ev matches BridgeEventView::Ran {
                spawned,
                success,
                ..
            } && spawned && !success) {
                assert(c == iptables_cmd(nat_rules_spec(b.outbound->0)[b.step as int], "-A"@));
            } else {
                assert(c == iptables_cmd(nat_rules_spec(b.outbound->0)[b.step + 1 as int], "-C"@));
            }
        }
    }
}

} // verus!
