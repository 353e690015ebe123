//! The login service: its definition, and the calls that turn it on and off.

use vstd::prelude::*;
use vstd::string::*;

use crate::clip_tools::System;
use crate::config;
use crate::config::join;
use crate::text;

verus! {

/// Why there is no service.
#[derive(Debug, Clone, Copy, PartialEq, Eq, Structural)]
pub enum ServiceProblem {
    /// The system is neither Linux nor macOS.
    Unsupported,
    /// The home directory is not known.
    NoHome,
}

// ---- the definition ----

/// The definition of the service for systemd.
pub open spec fn unit_text(exe: Seq<char>) -> Seq<char> {
    "[Unit]\nDescription=Pastebridge clipboard sync\nAfter=network-online.target\nWants=network-online.target\n\n[Service]\nExecStart="@
        + exe
        + " start\nRestart=on-failure\nRestartSec=3\nEnvironment=RUST_LOG=pastebridge=info\n\n[Install]\nWantedBy=default.target\n"@
}

/// The definition of the service for systemd.
pub fn systemd_unit(exe: &str) -> (r: String)
    ensures
        r@ == unit_text(exe@),
{
    let mut out =
        "[Unit]\nDescription=Pastebridge clipboard sync\nAfter=network-online.target\nWants=network-online.target\n\n[Service]\nExecStart=".to_string();
    out.append(exe);
    out.append(
        " start\nRestart=on-failure\nRestartSec=3\nEnvironment=RUST_LOG=pastebridge=info\n\n[Install]\nWantedBy=default.target\n",
    );
    out
}

/// The definition of the service for launchd.
pub open spec fn plist_text(exe: Seq<char>, logs: Seq<char>) -> Seq<char> {
    "<?xml version=\"1.0\" encoding=\"UTF-8\"?>\n<!DOCTYPE plist PUBLIC \"-//Apple//DTD PLIST 1.0//EN\" \"http://www.apple.com/DTDs/PropertyList-1.0.dtd\">\n<plist version=\"1.0\">\n<dict>\n  <key>Label</key>\n  <string>dev.pastebridge.daemon</string>\n  <key>ProgramArguments</key>\n  <array>\n    <string>"@
        + exe
        + "</string>\n    <string>start</string>\n  </array>\n  <key>RunAtLoad</key>\n  <true/>\n  <key>KeepAlive</key>\n  <true/>\n  <key>EnvironmentVariables</key>\n  <dict>\n    <key>RUST_LOG</key>\n    <string>pastebridge=info</string>\n  </dict>\n  <key>StandardOutPath</key>\n  <string>"@
        + logs + "/pastebridge.log</string>\n  <key>StandardErrorPath</key>\n  <string>"@ + logs
        + "/pastebridge.err</string>\n</dict>\n</plist>\n"@
}

/// The definition of the service for launchd.
pub fn launchd_plist(exe: &str, logs: &str) -> (r: String)
    ensures
        r@ == plist_text(exe@, logs@),
{
    let mut out =
        "<?xml version=\"1.0\" encoding=\"UTF-8\"?>\n<!DOCTYPE plist PUBLIC \"-//Apple//DTD PLIST 1.0//EN\" \"http://www.apple.com/DTDs/PropertyList-1.0.dtd\">\n<plist version=\"1.0\">\n<dict>\n  <key>Label</key>\n  <string>dev.pastebridge.daemon</string>\n  <key>ProgramArguments</key>\n  <array>\n    <string>".to_string();
    out.append(exe);
    out.append(
        "</string>\n    <string>start</string>\n  </array>\n  <key>RunAtLoad</key>\n  <true/>\n  <key>KeepAlive</key>\n  <true/>\n  <key>EnvironmentVariables</key>\n  <dict>\n    <key>RUST_LOG</key>\n    <string>pastebridge=info</string>\n  </dict>\n  <key>StandardOutPath</key>\n  <string>",
    );
    out.append(logs);
    out.append("/pastebridge.log</string>\n  <key>StandardErrorPath</key>\n  <string>");
    out.append(logs);
    out.append("/pastebridge.err</string>\n</dict>\n</plist>\n");
    out
}

// ---- where it is ----

/// The directory of the definition.
pub open spec fn definition_dir(
    system: System,
    config_home: Option<Seq<char>>,
    home: Option<Seq<char>>,
) -> Result<Seq<char>, ServiceProblem> {
    match (system, config_home, home) {
        (System::Linux, Some(dir), _) => Ok(config::path_in(dir, "systemd/user"@)),
        (System::Linux, None, Some(h)) => Ok(
            config::path_in(config::path_in(h, ".config"@), "systemd/user"@),
        ),
        (System::MacOs, _, Some(h)) => Ok(config::path_in(h, "Library/LaunchAgents"@)),
        (System::Other, _, _) => Err(ServiceProblem::Unsupported),
        _ => Err(ServiceProblem::NoHome),
    }
}

/// What an optional text says.
pub open spec fn str_view(s: Option<&str>) -> Option<Seq<char>> {
    match s {
        Some(t) => Some(t@),
        None => None,
    }
}

/// The directory of the definition.
pub fn service_dir(system: System, config_home: Option<&str>, home: Option<&str>) -> (r: Result<
    String,
    ServiceProblem,
>)
    ensures
        match r {
            Ok(dir) => definition_dir(system, str_view(config_home), str_view(home)) == Ok::<
                Seq<char>,
                ServiceProblem,
            >(dir@),
            Err(e) => definition_dir(system, str_view(config_home), str_view(home)) == Err::<
                Seq<char>,
                ServiceProblem,
            >(e),
        },
{
    match system {
        System::Linux => match config_home {
            Some(dir) => Ok(join(dir, "systemd/user")),
            None => match home {
                Some(h) => {
                    let dir = join(h, ".config");
                    Ok(join(dir.as_str(), "systemd/user"))
                },
                None => Err(ServiceProblem::NoHome),
            },
        },
        System::MacOs => match home {
            Some(h) => Ok(join(h, "Library/LaunchAgents")),
            None => Err(ServiceProblem::NoHome),
        },
        System::Other => Err(ServiceProblem::Unsupported),
    }
}

/// The name of the file with the definition.
pub fn service_file(system: System) -> (r: Option<&'static str>)
    ensures
        str_view(r) == (match system {
            System::Linux => Some("pastebridge.service"@),
            System::MacOs => Some("dev.pastebridge.daemon.plist"@),
            System::Other => None,
        }),
{
    match system {
        System::Linux => Some("pastebridge.service"),
        System::MacOs => Some("dev.pastebridge.daemon.plist"),
        System::Other => None,
    }
}

// ---- the calls ----

/// A program call: the program, then its arguments.
pub open spec fn call_view(call: Vec<String>) -> Seq<Seq<char>> {
    text::strings(call@)
}

/// Program calls.
pub open spec fn calls_view(calls: Seq<Vec<String>>) -> Seq<Seq<Seq<char>>> {
    calls.map_values(|c: Vec<String>| call_view(c))
}

/// How the service is turned on, once its definition has been written.
#[derive(Debug)]
pub struct Installation {
    /// Calls whose outcome does not matter.
    pub before: Vec<Vec<String>>,
    /// The call that decides whether the service is on.
    pub enable: Vec<String>,
    /// Calls after that whose outcome does not matter.
    pub after: Vec<Vec<String>>,
    /// Calls that are made only where the service is on.
    pub once_on: Vec<Vec<String>>,
}

/// The launchd domain of a user.
pub open spec fn domain_of(user: Seq<char>) -> Seq<char> {
    "gui/"@ + user
}

/// The name of the service in the launchd domain of a user.
pub open spec fn agent_of(user: Seq<char>) -> Seq<char> {
    domain_of(user) + "/dev.pastebridge.daemon"@
}

fn word(s: &str) -> (r: String)
    ensures
        r@ == s@,
{
    s.to_string()
}

fn domain(user: &str) -> (r: String)
    ensures
        r@ == domain_of(user@),
{
    let mut out = "gui/".to_string();
    out.append(user);
    out
}

fn agent(user: &str) -> (r: String)
    ensures
        r@ == agent_of(user@),
{
    let mut out = domain(user);
    out.append("/dev.pastebridge.daemon");
    out
}

/// The calls that turn the service on. For Linux the user is the login name,
/// for macOS the number of the user.
pub fn install(system: System, user: &str, path: &str) -> (r: Result<Installation, ServiceProblem>)
    ensures
        match system {
            System::Linux => {
                &&& r matches Ok(i)
                &&& calls_view(i.before@) == seq![seq!["systemctl"@, "--user"@, "daemon-reload"@]]
                &&& call_view(i.enable) == seq![
                    "systemctl"@,
                    "--user"@,
                    "enable"@,
                    "--now"@,
                    "pastebridge.service"@,
                ]
                &&& i.after@.len() == 0
                &&& calls_view(i.once_on@) == seq![seq!["loginctl"@, "enable-linger"@, user@]]
            },
            System::MacOs => {
                &&& r matches Ok(i)
                &&& calls_view(i.before@) == seq![seq!["launchctl"@, "bootout"@, agent_of(user@)]]
                &&& call_view(i.enable) == seq![
                    "launchctl"@,
                    "bootstrap"@,
                    domain_of(user@),
                    path@,
                ]
                &&& calls_view(i.after@) == seq![seq!["launchctl"@, "enable"@, agent_of(user@)]]
                &&& i.once_on@.len() == 0
            },
            System::Other => r matches Err(e) && e == ServiceProblem::Unsupported,
        },
{
    match system {
        System::Linux => {
            let reload = vec![word("systemctl"), word("--user"), word("daemon-reload")];
            let enable = vec![
                word("systemctl"),
                word("--user"),
                word("enable"),
                word("--now"),
                word("pastebridge.service"),
            ];
            let linger = vec![word("loginctl"), word("enable-linger"), word(user)];
            assert(call_view(reload) =~= seq!["systemctl"@, "--user"@, "daemon-reload"@]);
            assert(call_view(enable) =~= seq![
                "systemctl"@,
                "--user"@,
                "enable"@,
                "--now"@,
                "pastebridge.service"@,
            ]);
            assert(call_view(linger) =~= seq!["loginctl"@, "enable-linger"@, user@]);
            let i = Installation {
                before: vec![reload],
                enable,
                after: Vec::new(),
                once_on: vec![linger],
            };
            assert(calls_view(i.before@) =~= seq![
                seq!["systemctl"@, "--user"@, "daemon-reload"@],
            ]);
            assert(calls_view(i.once_on@) =~= seq![
                seq!["loginctl"@, "enable-linger"@, user@],
            ]);
            Ok(i)
        },
        System::MacOs => {
            let bootout = vec![word("launchctl"), word("bootout"), agent(user)];
            let bootstrap = vec![word("launchctl"), word("bootstrap"), domain(user), word(path)];
            let enable = vec![word("launchctl"), word("enable"), agent(user)];
            assert(call_view(bootout) =~= seq!["launchctl"@, "bootout"@, agent_of(user@)]);
            assert(call_view(bootstrap) =~= seq![
                "launchctl"@,
                "bootstrap"@,
                domain_of(user@),
                path@,
            ]);
            assert(call_view(enable) =~= seq!["launchctl"@, "enable"@, agent_of(user@)]);
            let i = Installation {
                before: vec![bootout],
                enable: bootstrap,
                after: vec![enable],
                once_on: Vec::new(),
            };
            assert(calls_view(i.before@) =~= seq![
                seq!["launchctl"@, "bootout"@, agent_of(user@)],
            ]);
            assert(calls_view(i.after@) =~= seq![
                seq!["launchctl"@, "enable"@, agent_of(user@)],
            ]);
            Ok(i)
        },
        System::Other => Err(ServiceProblem::Unsupported),
    }
}

/// How the service is turned off. Its definition is then removed.
#[derive(Debug)]
pub struct Removal {
    /// The call that turns it off; its outcome does not matter.
    pub disable: Vec<String>,
    /// What is told afterwards.
    pub message: &'static str,
}

/// The call that turns the service off.
pub fn uninstall(system: System, user: &str) -> (r: Result<Removal, ServiceProblem>)
    ensures
        match system {
            System::Linux => {
                &&& r matches Ok(removal)
                &&& call_view(removal.disable) == seq![
                    "systemctl"@,
                    "--user"@,
                    "disable"@,
                    "--now"@,
                    "pastebridge.service"@,
                ]
                &&& removal.message@ == "Removed the Pastebridge user service."@
            },
            System::MacOs => {
                &&& r matches Ok(removal)
                &&& call_view(removal.disable) == seq![
                    "launchctl"@,
                    "bootout"@,
                    agent_of(user@),
                ]
                &&& removal.message@ == "Removed the Pastebridge LaunchAgent."@
            },
            System::Other => r matches Err(e) && e == ServiceProblem::Unsupported,
        },
{
    match system {
        System::Linux => {
            let disable = vec![
                word("systemctl"),
                word("--user"),
                word("disable"),
                word("--now"),
                word("pastebridge.service"),
            ];
            assert(call_view(disable) =~= seq![
                "systemctl"@,
                "--user"@,
                "disable"@,
                "--now"@,
                "pastebridge.service"@,
            ]);
            Ok(Removal { disable, message: "Removed the Pastebridge user service." })
        },
        System::MacOs => {
            let disable = vec![word("launchctl"), word("bootout"), agent(user)];
            assert(call_view(disable) =~= seq!["launchctl"@, "bootout"@, agent_of(user@)]);
            Ok(Removal { disable, message: "Removed the Pastebridge LaunchAgent." })
        },
        System::Other => Err(ServiceProblem::Unsupported),
    }
}

/// The call that restarts the service after an update.
pub fn restart(system: System, user: &str) -> (r: Result<Vec<String>, ServiceProblem>)
    ensures
        match system {
            System::Linux => r matches Ok(call) && call_view(call) == seq![
                "systemctl"@,
                "--user"@,
                "restart"@,
                "pastebridge.service"@,
            ],
            System::MacOs => r matches Ok(call) && call_view(call) == seq![
                "launchctl"@,
                "kickstart"@,
                "-k"@,
                agent_of(user@),
            ],
            System::Other => r matches Err(e) && e == ServiceProblem::Unsupported,
        },
{
    match system {
        System::Linux => {
            let call = vec![
                word("systemctl"),
                word("--user"),
                word("restart"),
                word("pastebridge.service"),
            ];
            assert(call_view(call) =~= seq![
                "systemctl"@,
                "--user"@,
                "restart"@,
                "pastebridge.service"@,
            ]);
            Ok(call)
        },
        System::MacOs => {
            let call = vec![word("launchctl"), word("kickstart"), word("-k"), agent(user)];
            assert(call_view(call) =~= seq![
                "launchctl"@,
                "kickstart"@,
                "-k"@,
                agent_of(user@),
            ]);
            Ok(call)
        },
        System::Other => Err(ServiceProblem::Unsupported),
    }
}

// ---- laws ----

/// The definition for systemd starts the program with the word `start`, and tells
/// the program.
pub proof fn unit_starts_the_program(exe: Seq<char>, other: Seq<char>)
    ensures
        text::contains(unit_text(exe), "\nExecStart="@ + exe + " start\nRestart=on-failure\n"@),
        unit_text(exe) == unit_text(other) ==> exe == other,
{
    reveal_strlit(
        "[Unit]\nDescription=Pastebridge clipboard sync\nAfter=network-online.target\nWants=network-online.target\n\n[Service]\nExecStart=",
    );
    reveal_strlit(
        "[Unit]\nDescription=Pastebridge clipboard sync\nAfter=network-online.target\nWants=network-online.target\n\n[Service]",
    );
    reveal_strlit("\nExecStart=");
    reveal_strlit(
        " start\nRestart=on-failure\nRestartSec=3\nEnvironment=RUST_LOG=pastebridge=info\n\n[Install]\nWantedBy=default.target\n",
    );
    reveal_strlit(" start\nRestart=on-failure\n");
    reveal_strlit(
        "RestartSec=3\nEnvironment=RUST_LOG=pastebridge=info\n\n[Install]\nWantedBy=default.target\n",
    );
    let head =
        "[Unit]\nDescription=Pastebridge clipboard sync\nAfter=network-online.target\nWants=network-online.target\n\n[Service]\nExecStart="@;
    let first =
        "[Unit]\nDescription=Pastebridge clipboard sync\nAfter=network-online.target\nWants=network-online.target\n\n[Service]"@;
    let tail =
        " start\nRestart=on-failure\nRestartSec=3\nEnvironment=RUST_LOG=pastebridge=info\n\n[Install]\nWantedBy=default.target\n"@;
    let last =
        "RestartSec=3\nEnvironment=RUST_LOG=pastebridge=info\n\n[Install]\nWantedBy=default.target\n"@;
    assert(head =~= first + "\nExecStart="@);
    assert(tail =~= " start\nRestart=on-failure\n"@ + last);
    let part = "\nExecStart="@ + exe + " start\nRestart=on-failure\n"@;
    assert(unit_text(exe) =~= first + part + last);
    text::parts_are_found(unit_text(exe), first, part, last);
    if unit_text(exe) == unit_text(other) {
        let n = unit_text(exe).len() - tail.len();
        assert(unit_text(exe).subrange(head.len() as int, n) =~= exe);
        assert(unit_text(other).subrange(head.len() as int, n) =~= other);
    }
}

/// The definition for launchd starts the program with the word `start`, and has
/// it write to two files in the directory for logs.
pub proof fn plist_starts_the_program(exe: Seq<char>, logs: Seq<char>)
    ensures
        text::contains(plist_text(exe, logs), "<string>"@ + exe + "</string>\n    <string>start</string>"@),
        text::contains(plist_text(exe, logs), "<string>"@ + logs + "/pastebridge.log</string>"@),
        text::contains(plist_text(exe, logs), "<string>"@ + logs + "/pastebridge.err</string>"@),
{
    let head =
        "<?xml version=\"1.0\" encoding=\"UTF-8\"?>\n<!DOCTYPE plist PUBLIC \"-//Apple//DTD PLIST 1.0//EN\" \"http://www.apple.com/DTDs/PropertyList-1.0.dtd\">\n<plist version=\"1.0\">\n<dict>\n  <key>Label</key>\n  <string>dev.pastebridge.daemon</string>\n  <key>ProgramArguments</key>\n  <array>\n    <string>"@;
    let middle =
        "</string>\n    <string>start</string>\n  </array>\n  <key>RunAtLoad</key>\n  <true/>\n  <key>KeepAlive</key>\n  <true/>\n  <key>EnvironmentVariables</key>\n  <dict>\n    <key>RUST_LOG</key>\n    <string>pastebridge=info</string>\n  </dict>\n  <key>StandardOutPath</key>\n  <string>"@;
    let out = "/pastebridge.log</string>\n  <key>StandardErrorPath</key>\n  <string>"@;
    let err = "/pastebridge.err</string>\n</dict>\n</plist>\n"@;
    let open = "<string>"@;
    reveal_strlit(
        "<?xml version=\"1.0\" encoding=\"UTF-8\"?>\n<!DOCTYPE plist PUBLIC \"-//Apple//DTD PLIST 1.0//EN\" \"http://www.apple.com/DTDs/PropertyList-1.0.dtd\">\n<plist version=\"1.0\">\n<dict>\n  <key>Label</key>\n  <string>dev.pastebridge.daemon</string>\n  <key>ProgramArguments</key>\n  <array>\n    <string>",
    );
    reveal_strlit(
        "</string>\n    <string>start</string>\n  </array>\n  <key>RunAtLoad</key>\n  <true/>\n  <key>KeepAlive</key>\n  <true/>\n  <key>EnvironmentVariables</key>\n  <dict>\n    <key>RUST_LOG</key>\n    <string>pastebridge=info</string>\n  </dict>\n  <key>StandardOutPath</key>\n  <string>",
    );
    reveal_strlit("/pastebridge.log</string>\n  <key>StandardErrorPath</key>\n  <string>");
    reveal_strlit("/pastebridge.err</string>\n</dict>\n</plist>\n");
    reveal_strlit("<string>");
    reveal_strlit("</string>\n    <string>start</string>");
    reveal_strlit("/pastebridge.log</string>");
    reveal_strlit("/pastebridge.err</string>");
    let h = head.take(head.len() - 8);
    let m = middle.take(middle.len() - 8);
    let o = out.take(out.len() - 8);
    let start = "</string>\n    <string>start</string>"@;
    let log = "/pastebridge.log</string>"@;
    let error = "/pastebridge.err</string>"@;
    assert(head.skip(head.len() - 8) =~= open);
    assert(middle.skip(middle.len() - 8) =~= open);
    assert(out.skip(out.len() - 8) =~= open);
    assert(head =~= h + open);
    assert(middle =~= m + open);
    assert(out =~= o + open);
    assert(middle.take(start.len() as int) =~= start);
    assert(out.take(log.len() as int) =~= log);
    assert(err.take(error.len() as int) =~= error);
    let whole = plist_text(exe, logs);
    let after1 = middle.skip(start.len() as int) + logs + out + logs + err;
    assert(middle =~= start + middle.skip(start.len() as int));
    assert(whole =~= h + (open + exe + start) + after1);
    text::parts_are_found(whole, h, open + exe + start, after1);
    let before2 = head + exe + m;
    let after2 = out.skip(log.len() as int) + logs + err;
    assert(out =~= log + out.skip(log.len() as int));
    assert(whole =~= before2 + (open + logs + log) + after2);
    text::parts_are_found(whole, before2, open + logs + log, after2);
    let before3 = head + exe + middle + logs + o;
    let after3 = err.skip(error.len() as int);
    assert(err =~= error + after3);
    assert(whole =~= before3 + (open + logs + error) + after3);
    text::parts_are_found(whole, before3, open + logs + error, after3);
}

/// The definition is where the system looks for it: on Linux in the directory for
/// settings, which is `.config` at home where none is set, on macOS at home.
pub proof fn definitions_are_where_the_system_looks(
    dir: Seq<char>,
    home: Option<Seq<char>>,
    set: Option<Seq<char>>,
)
    requires
        dir.len() > 0,
        dir.last() != '/',
    ensures
        definition_dir(System::Linux, Some(dir), home) == Ok::<Seq<char>, ServiceProblem>(
            dir + "/systemd/user"@,
        ),
        definition_dir(System::Linux, None, Some(dir)) == Ok::<Seq<char>, ServiceProblem>(
            dir + "/.config/systemd/user"@,
        ),
        definition_dir(System::MacOs, set, Some(dir)) == Ok::<Seq<char>, ServiceProblem>(
            dir + "/Library/LaunchAgents"@,
        ),
        definition_dir(System::Linux, None, None) == Err::<Seq<char>, ServiceProblem>(
            ServiceProblem::NoHome,
        ),
        definition_dir(System::MacOs, set, None) == Err::<Seq<char>, ServiceProblem>(
            ServiceProblem::NoHome,
        ),
        definition_dir(System::Other, set, home) == Err::<Seq<char>, ServiceProblem>(
            ServiceProblem::Unsupported,
        ),
{
    reveal_strlit("/");
    reveal_strlit("systemd/user");
    reveal_strlit("/systemd/user");
    reveal_strlit(".config");
    reveal_strlit("/.config/systemd/user");
    reveal_strlit("Library/LaunchAgents");
    reveal_strlit("/Library/LaunchAgents");
    assert(dir + "/"@ + "systemd/user"@ =~= dir + "/systemd/user"@);
    let config = dir + "/"@ + ".config"@;
    assert(config.last() == 'g');
    assert(config + "/"@ + "systemd/user"@ =~= dir + "/.config/systemd/user"@);
    assert(dir + "/"@ + "Library/LaunchAgents"@ =~= dir + "/Library/LaunchAgents"@);
}

/// The service of a user is in the launchd domain of that user.
pub proof fn agents_are_in_the_domain_of_their_user(user: Seq<char>)
    ensures
        agent_of(user) == "gui/"@ + user + "/dev.pastebridge.daemon"@,
        domain_of(user) == "gui/"@ + user,
        text::starts_with(agent_of(user), domain_of(user)),
{
    text::beginnings_are_found(agent_of(user), domain_of(user), "/dev.pastebridge.daemon"@);
}

/// What the words of a call say is told one by one, and the calls are.
pub proof fn calls_are_told_in_order(call: Vec<String>, calls: Seq<Vec<String>>, i: int)
    ensures
        call_view(call).len() == call@.len(),
        0 <= i < call@.len() ==> call_view(call)[i] == call@[i]@,
        calls_view(calls).len() == calls.len(),
        0 <= i < calls.len() ==> calls_view(calls)[i] == call_view(calls[i]),
        str_view(None) is None,
{
}

} // verus!
