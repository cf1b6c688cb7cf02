//! What the command line decides: which process names are accepted, the
//! service units and shell commands that manage background processes in a
//! VM, how a listing shows creation times, and which answer confirms
//! destroying every VM.

use vstd::prelude::*;
use crate::text::{decimal, decimal_string, str_eq, trim, trim_spec};
use vstd::string::StringSliceAdditionalSpecFns;

verus! {

/// Why a process name was refused.
#[derive(Debug, PartialEq, Eq, Structural)]
pub enum NameError {
    /// The name is empty.
    Empty,
    /// The name starts with a digit.
    StartsWithDigit,
    /// The name holds a character other than a letter, a digit, `-` or `_`.
    InvalidCharacter,
}

/// An ASCII digit.
pub open spec fn is_digit(c: char) -> bool {
    '0' <= c <= '9'
}

/// A character that a process name may hold: an ASCII letter or digit, `-`
/// or `_`.
pub open spec fn name_char(c: char) -> bool {
    is_digit(c) || ('a' <= c <= 'z') || ('A' <= c <= 'Z') || c == '-' || c == '_'
}

/// Whether a process name is accepted, and if not, why.
pub open spec fn check_name_spec(name: Seq<char>) -> Result<(), NameError> {
    if name.len() == 0 {
        Err(NameError::Empty)
    } else if is_digit(name[0]) {
        Err(NameError::StartsWithDigit)
    } else if exists|i: int| 0 <= i < name.len() && !name_char(#[trigger] name[i]) {
        Err(NameError::InvalidCharacter)
    } else {
        Ok(())
    }
}

/// Accepts a process name that is not empty, does not start with a digit and
/// holds only ASCII letters, digits, `-` and `_`.
pub fn sanitize_process_name(name: &str) -> (res: Result<&str, NameError>)
    ensures
        match res {
            Ok(n) => n@ == name@ && check_name_spec(name@) == Ok::<(), NameError>(()),
            Err(e) => check_name_spec(name@) == Err::<(), NameError>(e),
        },
{
    let n = name.unicode_len();
    if n == 0 {
        return Err(NameError::Empty);
    }
    let first = name.get_char(0);
    if '0' <= first && first <= '9' {
        return Err(NameError::StartsWithDigit);
    }
    let mut i: usize = 0;
    while i < n
        invariant
            n == name@.len(),
            n > 0,
            !is_digit(name@[0]),
            i <= n,
            forall|j: int| 0 <= j < i ==> name_char(#[trigger] name@[j]),
        decreases n - i,
    {
        let c = name.get_char(i);
        let ok = ('0' <= c && c <= '9') || ('a' <= c && c <= 'z') || ('A' <= c && c <= 'Z') || c
            == '-' || c == '_';
        if !ok {
            assert(!name_char(name@[i as int]));
            return Err(NameError::InvalidCharacter);
        }
        i = i + 1;
    }
    Ok(name)
}

/// The restart policy of a managed process.
pub open spec fn restart_policy_spec(no_restart: bool) -> Seq<char> {
    if no_restart {
        "no"@
    } else {
        "always"@
    }
}

/// The systemd unit of a managed process.
pub open spec fn unit_spec(name: Seq<char>, cwd: Seq<char>, command: Seq<char>, no_restart: bool) -> Seq<
    char,
> {
    "[Unit]\nDescription="@ + name + "\n\n[Service]\nType=simple\nWorkingDirectory="@ + cwd
        + "\nExecStart="@ + command + "\nRestart="@ + restart_policy_spec(no_restart)
        + "\nRestartSec=2\n\n[Install]\nWantedBy=multi-user.target\n"@
}

/// The systemd unit of a managed process; see `unit_spec`.
pub fn process_unit(name: &str, cwd: &str, command: &str, no_restart: bool) -> (res: String)
    ensures
        res@ == unit_spec(name@, cwd@, command@, no_restart),
{
    let mut res = "[Unit]\nDescription=".to_owned();
    res.append(name);
    res.append("\n\n[Service]\nType=simple\nWorkingDirectory=");
    res.append(cwd);
    res.append("\nExecStart=");
    res.append(command);
    res.append("\nRestart=");
    res.append(if no_restart {
        "no"
    } else {
        "always"
    });
    res.append("\nRestartSec=2\n\n[Install]\nWantedBy=multi-user.target\n");
    res
}

/// The shell commands that install and start a managed process: create its
/// working directory, write its unit, reload systemd, enable and start it.
pub open spec fn start_commands_spec(
    name: Seq<char>,
    cwd: Seq<char>,
    command: Seq<char>,
    no_restart: bool,
) -> Seq<Seq<char>> {
    seq![
        "mkdir -p "@ + cwd,
        "cat > /etc/systemd/system/vume-"@ + name + ".service << 'UNIT'\n"@ + unit_spec(
            name,
            cwd,
            command,
            no_restart,
        ) + "UNIT"@,
        "systemctl daemon-reload"@,
        "systemctl enable --now vume-"@ + name + ".service"@,
    ]
}

/// The contents of a list of strings.
pub open spec fn texts(v: Seq<String>) -> Seq<Seq<char>> {
    v.map_values(|s: String| s@)
}

/// The shell commands that install and start a managed process; see
/// `start_commands_spec`.
pub fn process_start_commands(name: &str, cwd: &str, command: &str, no_restart: bool) -> (res: Vec<
    String,
>)
    ensures
        texts(res@) == start_commands_spec(name@, cwd@, command@, no_restart),
{
    let mut mkdir = "mkdir -p ".to_owned();
    mkdir.append(cwd);
    let mut write = "cat > /etc/systemd/system/vume-".to_owned();
    write.append(name);
    write.append(".service << 'UNIT'\n");
    let unit = process_unit(name, cwd, command, no_restart);
    write.append(unit.as_str());
    write.append("UNIT");
    let mut enable = "systemctl enable --now vume-".to_owned();
    enable.append(name);
    enable.append(".service");
    let res = vec![mkdir, write, "systemctl daemon-reload".to_owned(), enable];
    assert(texts(res@) =~= start_commands_spec(name@, cwd@, command@, no_restart));
    res
}

/// The shell commands that stop and remove a managed process: disable and
/// stop it (ignoring failure), remove its unit, reload systemd.
pub open spec fn stop_commands_spec(name: Seq<char>) -> Seq<Seq<char>> {
    seq![
        "sh -c 'systemctl disable --now vume-"@ + name + ".service || true'"@,
        "rm -f /etc/systemd/system/vume-"@ + name + ".service"@,
        "systemctl daemon-reload"@,
    ]
}

/// The shell commands that stop and remove a managed process; see
/// `stop_commands_spec`.
pub fn process_stop_commands(name: &str) -> (res: Vec<String>)
    ensures
        texts(res@) == stop_commands_spec(name@),
{
    let mut disable = "sh -c 'systemctl disable --now vume-".to_owned();
    disable.append(name);
    disable.append(".service || true'");
    let mut remove = "rm -f /etc/systemd/system/vume-".to_owned();
    remove.append(name);
    remove.append(".service");
    let res = vec![disable, remove, "systemctl daemon-reload".to_owned()];
    assert(texts(res@) =~= stop_commands_spec(name@));
    res
}

/// The shell command that lists the managed processes.
pub fn process_list_command() -> (res: String)
    ensures
        res@ == "systemctl list-units 'vume-*' --type=service --no-pager --plain --all"@,
{
    "systemctl list-units 'vume-*' --type=service --no-pager --plain --all".to_owned()
}

/// The shell command that shows the last `lines` log lines of a managed
/// process.
pub fn process_logs_command(name: &str, lines: u32) -> (res: String)
    ensures
        res@ == "journalctl -u vume-"@ + name@ + " -n "@ + decimal(lines as nat) + " --no-pager"@,
{
    let mut res = "journalctl -u vume-".to_owned();
    res.append(name);
    res.append(" -n ");
    let digits = decimal_string(lines as u64);
    res.append(digits.as_str());
    res.append(" --no-pager");
    res
}

/// A creation time as a listing shows it, given the part of it that is shown:
/// `T` becomes a space.
pub open spec fn created_display_spec(head: Seq<char>) -> Seq<char> {
    head.map_values(|c: char| if c == 'T' { ' ' } else { c })
}

/// The creation time as a listing shows it: its first 19 bytes (the date and
/// time to the second) where it has that many and they end on a character
/// boundary, otherwise all of it; with `T` shown as a space.
pub fn created_display(created_at: &str) -> (res: String)
    ensures
        exists|head: &str|
            #![trigger created_display_spec(head@)]
            res@ == created_display_spec(head@) && (if created_at.len()
                >= 19 && vstd::utf8::is_char_boundary(created_at.spec_bytes(), 19) {
                head.spec_bytes() == created_at.spec_bytes().subrange(0, 19)
            } else {
                head@ == created_at@
            }),
{
    let cut = created_at.len() >= 19 && created_at.is_char_boundary(19);
    let head: &str = if cut {
        let (h, _) = created_at.split_at(19);
        assert(h.spec_bytes() == created_at.spec_bytes().subrange(0, 19));
        h
    } else {
        created_at
    };
    let n = head.unicode_len();
    let mut res = String::new();
    let mut i: usize = 0;
    while i < n
        invariant
            n == head@.len(),
            i <= n,
            res@ == head@.take(i as int).map_values(|c: char| if c == 'T' { ' ' } else { c }),
        decreases n - i,
    {
        let c = head.get_char(i);
        let piece = if c == 'T' {
            " ".to_owned()
        } else {
            head.substring_char(i, i + 1).to_owned()
        };
        proof {
            reveal_strlit(" ");
            assert(head@.subrange(i as int, i + 1) =~= seq![c]);
        }
        res.append(piece.as_str());
        proof {
            assert(head@.take(i + 1) =~= head@.take(i as int).push(c));
            assert(res@ =~= head@.take(i + 1).map_values(|c: char| if c == 'T' { ' ' } else { c }));
        }
        i = i + 1;
    }
    proof {
        assert(head@.take(n as int) =~= head@);
        assert(res@ == created_display_spec(head@));
    }
    res
}

/// The arguments of `ssh` that open an interactive session to the VM as root
/// with the key, without checking or recording host keys; `-A` first where
/// the agent is forwarded.
pub open spec fn ssh_args_spec(key: Seq<char>, ip: Seq<char>, forward: bool) -> Seq<Seq<char>> {
    let base = seq![
        "-i"@,
        key,
        "-o"@,
        "StrictHostKeyChecking=no"@,
        "-o"@,
        "UserKnownHostsFile=/dev/null"@,
        "root@"@ + ip,
    ];
    if forward {
        seq!["-A"@] + base
    } else {
        base
    }
}

/// The arguments of `ssh` for an interactive session; see `ssh_args_spec`.
pub fn ssh_args(key: &str, ip: &str, forward: bool) -> (res: Vec<String>)
    ensures
        texts(res@) == ssh_args_spec(key@, ip@, forward),
{
    let mut target = "root@".to_owned();
    target.append(ip);
    let mut res = vec![
        "-i".to_owned(),
        key.to_owned(),
        "-o".to_owned(),
        "StrictHostKeyChecking=no".to_owned(),
        "-o".to_owned(),
        "UserKnownHostsFile=/dev/null".to_owned(),
        target,
    ];
    let ghost base = texts(res@);
    if forward {
        res.insert(0, "-A".to_owned());
        assert(texts(res@) =~= seq!["-A"@] + base);
    }
    assert(texts(res@) =~= ssh_args_spec(key@, ip@, forward));
    res
}

/// Whether an answer to the question before destroying every VM confirms it:
/// `y` or `Y`, with surrounding whitespace ignored.
pub open spec fn confirms_spec(answer: Seq<char>) -> bool {
    trim_spec(answer) == "y"@ || trim_spec(answer) == "Y"@
}

/// Whether the answer confirms destroying every VM; see `confirms_spec`.
pub fn confirms(answer: &str) -> (res: bool)
    ensures
        res == confirms_spec(answer@),
{
    let t = trim(answer);
    str_eq(t.as_str(), "y") || str_eq(t.as_str(), "Y")
}

/// Starting a managed process first creates its working directory, then
/// writes its unit under `/etc/systemd/system/vume-<name>.service`: the unit
/// describes the process by its name, runs the command in the working
/// directory, and restarts it always unless restarting was turned off, in
/// which case its policy is `no`; then systemd is reloaded and the unit is
/// enabled and started.
pub proof fn lemma_start_commands(name: Seq<char>, cwd: Seq<char>, command: Seq<char>, no_restart: bool)
    ensures
        ({
            let cmds = start_commands_spec(name, cwd, command, no_restart);
            let policy = if no_restart {
                "no"@
            } else {
                "always"@
            };
            &&& cmds.len() == 4
            &&& cmds[0] == "mkdir -p "@ + cwd
            &&& cmds[1] == "cat > /etc/systemd/system/vume-"@ + name + ".service << 'UNIT'\n"@
                + "[Unit]\nDescription="@ + name + "\n\n[Service]\nType=simple\nWorkingDirectory="@
                + cwd + "\nExecStart="@ + command + "\nRestart="@ + policy
                + "\nRestartSec=2\n\n[Install]\nWantedBy=multi-user.target\n"@ + "UNIT"@
            &&& cmds[2] == "systemctl daemon-reload"@
            &&& cmds[3] == "systemctl enable --now vume-"@ + name + ".service"@
        }),
{
    let cmds = start_commands_spec(name, cwd, command, no_restart);
    let policy = if no_restart {
        "no"@
    } else {
        "always"@
    };
    assert(cmds[1] =~= "cat > /etc/systemd/system/vume-"@ + name + ".service << 'UNIT'\n"@
        + "[Unit]\nDescription="@ + name + "\n\n[Service]\nType=simple\nWorkingDirectory="@ + cwd
        + "\nExecStart="@ + command + "\nRestart="@ + policy
        + "\nRestartSec=2\n\n[Install]\nWantedBy=multi-user.target\n"@ + "UNIT"@);
}

/// The unit written with restarting turned off differs from the one written
/// with it on, and only in its restart policy.
pub proof fn lemma_restart_flag_matters(name: Seq<char>, cwd: Seq<char>, command: Seq<char>)
    ensures
        start_commands_spec(name, cwd, command, true)[1] != start_commands_spec(
            name,
            cwd,
            command,
            false,
        )[1],
{
    reveal_strlit("no");
    reveal_strlit("always");
    let head = "cat > /etc/systemd/system/vume-"@ + name + ".service << 'UNIT'\n"@
        + "[Unit]\nDescription="@ + name + "\n\n[Service]\nType=simple\nWorkingDirectory="@ + cwd
        + "\nExecStart="@ + command + "\nRestart="@;
    let a = start_commands_spec(name, cwd, command, true)[1];
    let b = start_commands_spec(name, cwd, command, false)[1];
    lemma_start_commands(name, cwd, command, true);
    lemma_start_commands(name, cwd, command, false);
    assert(a =~= head + ("no"@ + ("\nRestartSec=2\n\n[Install]\nWantedBy=multi-user.target\n"@ + "UNIT"@)));
    assert(b =~= head + ("always"@ + ("\nRestartSec=2\n\n[Install]\nWantedBy=multi-user.target\n"@ + "UNIT"@)));
    reveal_strlit("\nRestartSec=2\n\n[Install]\nWantedBy=multi-user.target\n");
    assert(a[head.len() as int + 2] == '\n');
    assert(b[head.len() as int + 2] == 'w');
}

} // verus!
