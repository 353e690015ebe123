//! The report on what works and what needs attention.

use vstd::prelude::*;
use vstd::string::*;

use crate::discovery;
use crate::discovery::ip_string;
use crate::text;
use crate::text::{add_line, chars_of, push_decimal};

verus! {

/// What a look at the clipboard found.
#[derive(Debug)]
pub enum ClipboardState {
    Holds { backend: String, mime: String, len: usize },
    Empty { backend: String },
    Failed(String),
}

/// What is known when the report is made.
#[derive(Debug)]
pub struct Facts {
    pub name: String,
    pub config_dir: String,
    pub config_dir_exists: bool,
    pub peer_names: Vec<String>,
    pub clipboard: ClipboardState,
    pub port: u16,
    /// Whether the port could be bound.
    pub port_free: bool,
    pub daemon_pid: Option<u32>,
    /// Whether a Wayland display is set.
    pub wayland_set: bool,
    pub wl_copy: bool,
    pub wl_paste: bool,
    /// The address of this machine in the tailnet, and how many devices there
    /// may be to pair with.
    pub tailscale: Option<(u32, usize)>,
}

/// Spaces.
pub open spec fn spaces(n: int) -> Seq<char> {
    Seq::new(n as nat, |i: int| ' ')
}

/// A line on something that needs attention.
pub open spec fn fail_line(label: Seq<char>, detail: Seq<char>) -> Seq<char> {
    "! "@ + label + (if label.len() < 10 {
        spaces(10 - label.len())
    } else {
        seq![]
    }) + " "@ + detail
}

/// A line on something that needs attention.
pub fn fail(label: &str, detail: &str) -> (r: String)
    ensures
        r@ == fail_line(label@, detail@),
{
    let mut out = "! ".to_string();
    out.append(label);
    let width: usize = chars_of(label).len();
    let ghost start = out@;
    let mut n: usize = width;
    assert(start + spaces(0) =~= start);
    while n < 10
        invariant
            width <= n,
            n <= 10 || n == width,
            out@ == start + spaces(n - width),
        decreases 10 - n,
    {
        out.push(' ');
        n += 1;
        assert(out@ =~= start + spaces(n - width));
    }
    assert(spaces(0) =~= seq![]);
    out.append(" ");
    out.append(detail);
    out
}

/// Whether something needs attention, as a number.
pub open spec fn one_if(b: bool) -> int {
    if b {
        1
    } else {
        0
    }
}

impl Facts {
    /// Whether the port is taken by something else than the daemon.
    pub open spec fn port_taken(self) -> bool {
        !self.port_free && self.daemon_pid is None
    }

    /// Whether the programs for a Wayland clipboard are missing.
    pub open spec fn wl_missing(self) -> bool {
        self.wayland_set && !(self.wl_copy && self.wl_paste)
    }

    /// How much needs attention.
    pub open spec fn failed(self) -> int {
        one_if(!self.config_dir_exists) + one_if(self.clipboard is Failed) + one_if(
            self.port_taken(),
        ) + one_if(self.wl_missing())
    }

    /// The line on the paired devices.
    pub open spec fn paired_line(self) -> Seq<char> {
        if self.peer_names@.len() == 0 {
            "  paired     none"@
        } else {
            "  paired     "@ + text::joined(text::strings(self.peer_names@), ", "@)
        }
    }

    /// The line on the clipboard.
    pub open spec fn clipboard_line(self) -> Seq<char> {
        match self.clipboard {
            ClipboardState::Holds { backend, mime, len } => "  clipboard  "@ + backend@ + "  "@
                + mime@ + "  "@ + text::decimal(len as nat) + " B"@,
            ClipboardState::Empty { backend } => "  clipboard  "@ + backend@ + "  empty"@,
            ClipboardState::Failed(why) => fail_line("clipboard"@, why@),
        }
    }

    /// The line on the tailnet.
    pub open spec fn tailscale_line(ip: u32, n: usize) -> Seq<char> {
        "  tailscale  "@ + discovery::ip_text(ip) + "  "@ + text::decimal(n as nat) + (if n == 1 {
            " peer"@
        } else {
            " peers"@
        })
    }

    /// The line on the daemon.
    pub open spec fn daemon_line(self) -> Seq<char> {
        match self.daemon_pid {
            Some(pid) => "  daemon     running  pid "@ + text::decimal(pid as nat),
            None => "  daemon     stopped"@,
        }
    }

    /// The lines on this device.
    pub open spec fn device_lines(self) -> Seq<Seq<char>> {
        seq![""@, "  "@ + self.name@] + (if self.config_dir_exists {
            seq![]
        } else {
            seq![fail_line("config"@, self.config_dir@)]
        }) + seq![self.paired_line(), self.clipboard_line()]
    }

    /// The lines on what may be in the way.
    pub open spec fn trouble_lines(self) -> Seq<Seq<char>> {
        (if self.port_taken() {
            seq![fail_line("port"@, text::decimal(self.port as nat) + " in use"@)]
        } else {
            seq![]
        }) + (if self.wl_missing() {
            seq![
                fail_line("wl-clipboard"@, "install with  sudo dnf install wl-clipboard"@),
            ]
        } else {
            seq![]
        })
    }

    /// The lines on what runs.
    pub open spec fn running_lines(self) -> Seq<Seq<char>> {
        (match self.tailscale {
            Some((ip, n)) => seq![Self::tailscale_line(ip, n)],
            None => seq![],
        }) + seq![self.daemon_line(), ""@]
    }

    /// The lines that sum up.
    pub open spec fn summary_lines(self) -> Seq<Seq<char>> {
        if self.failed() > 0 {
            seq!["  "@ + text::decimal(self.failed() as nat) + " need attention"@, ""@]
        } else {
            seq![]
        }
    }

    /// The lines of the report.
    pub open spec fn lines(self) -> Seq<Seq<char>> {
        self.device_lines() + self.trouble_lines() + self.running_lines() + self.summary_lines()
    }
}

/// Names with commas between them.
pub fn join_names(names: &Vec<String>) -> (r: String)
    ensures
        r@ == text::joined(text::strings(names@), ", "@),
{
    let mut out = String::new();
    let ghost all = text::strings(names@);
    let mut i: usize = 0;
    while i < names.len()
        invariant
            i <= names@.len(),
            all == text::strings(names@),
            out@ == text::joined(all.take(i as int), ", "@),
        decreases names@.len() - i,
    {
        assert(all.take(i as int + 1).drop_last() =~= all.take(i as int));
        assert(all.take(i as int + 1).last() == names@[i as int]@);
        if i > 0 {
            out.append(", ");
        } else {
            assert(out@ + names@[0]@ =~= names@[0]@);
            assert(all.take(1)[0] == names@[0]@);
        }
        out.append(names[i].as_str());
        i += 1;
    }
    assert(all.take(i as int) =~= all);
    out
}

fn paired(facts: &Facts) -> (r: String)
    ensures
        r@ == facts.paired_line(),
{
    if facts.peer_names.len() == 0 {
        return "  paired     none".to_string();
    }
    let mut out = "  paired     ".to_string();
    let names = join_names(&facts.peer_names);
    out.append(names.as_str());
    out
}

fn clipboard(facts: &Facts) -> (r: String)
    ensures
        r@ == facts.clipboard_line(),
{
    match &facts.clipboard {
        ClipboardState::Holds { backend, mime, len } => {
            let mut out = "  clipboard  ".to_string();
            out.append(backend.as_str());
            out.append("  ");
            out.append(mime.as_str());
            out.append("  ");
            push_decimal(&mut out, *len as u128);
            out.append(" B");
            out
        },
        ClipboardState::Empty { backend } => {
            let mut out = "  clipboard  ".to_string();
            out.append(backend.as_str());
            out.append("  empty");
            out
        },
        ClipboardState::Failed(why) => fail("clipboard", why.as_str()),
    }
}

fn tailscale(ip: u32, n: usize) -> (r: String)
    ensures
        r@ == Facts::tailscale_line(ip, n),
{
    let mut out = "  tailscale  ".to_string();
    let addr = ip_string(ip);
    out.append(addr.as_str());
    out.append("  ");
    push_decimal(&mut out, n as u128);
    if n == 1 {
        out.append(" peer");
    } else {
        out.append(" peers");
    }
    out
}

fn daemon(facts: &Facts) -> (r: String)
    ensures
        r@ == facts.daemon_line(),
{
    match facts.daemon_pid {
        Some(pid) => {
            let mut out = "  daemon     running  pid ".to_string();
            push_decimal(&mut out, pid as u128);
            out
        },
        None => "  daemon     stopped".to_string(),
    }
}

fn add_device(lines: &mut Vec<String>, facts: &Facts)
    ensures
        text::strings(final(lines)@) == text::strings(old(lines)@) + facts.device_lines(),
{
    add_line(lines, "".to_string());
    let mut name = "  ".to_string();
    name.append(facts.name.as_str());
    add_line(lines, name);
    if !facts.config_dir_exists {
        add_line(lines, fail("config", facts.config_dir.as_str()));
    }
    add_line(lines, paired(facts));
    add_line(lines, clipboard(facts));
    assert(text::strings(lines@) =~= text::strings(old(lines)@) + facts.device_lines());
}

fn add_trouble(lines: &mut Vec<String>, facts: &Facts)
    ensures
        text::strings(final(lines)@) == text::strings(old(lines)@) + facts.trouble_lines(),
{
    if !facts.port_free && facts.daemon_pid.is_none() {
        let mut detail = String::new();
        push_decimal(&mut detail, facts.port as u128);
        assert(detail@ =~= text::decimal(facts.port as nat));
        detail.append(" in use");
        add_line(lines, fail("port", detail.as_str()));
    }
    if facts.wayland_set && !(facts.wl_copy && facts.wl_paste) {
        add_line(
            lines,
            fail("wl-clipboard", "install with  sudo dnf install wl-clipboard"),
        );
    }
    assert(text::strings(lines@) =~= text::strings(old(lines)@) + facts.trouble_lines());
}

fn add_running(lines: &mut Vec<String>, facts: &Facts)
    ensures
        text::strings(final(lines)@) == text::strings(old(lines)@) + facts.running_lines(),
{
    if let Some((ip, n)) = facts.tailscale {
        add_line(lines, tailscale(ip, n));
    }
    add_line(lines, daemon(facts));
    add_line(lines, "".to_string());
    assert(text::strings(lines@) =~= text::strings(old(lines)@) + facts.running_lines());
}

fn count_failed(facts: &Facts) -> (r: u8)
    ensures
        r == facts.failed(),
{
    let mut failed: u8 = 0;
    if !facts.config_dir_exists {
        failed += 1;
    }
    if let ClipboardState::Failed(_) = &facts.clipboard {
        failed += 1;
    }
    if !facts.port_free && facts.daemon_pid.is_none() {
        failed += 1;
    }
    if facts.wayland_set && !(facts.wl_copy && facts.wl_paste) {
        failed += 1;
    }
    failed
}

/// The lines of the report.
pub fn run(facts: &Facts) -> (r: Vec<String>)
    ensures
        text::strings(r@) == facts.lines(),
{
    let mut lines: Vec<String> = Vec::new();
    assert(text::strings(lines@) + facts.device_lines() =~= facts.device_lines());
    add_device(&mut lines, facts);
    add_trouble(&mut lines, facts);
    add_running(&mut lines, facts);
    let failed: u8 = count_failed(facts);
    if failed > 0 {
        let mut line = "  ".to_string();
        push_decimal(&mut line, failed as u128);
        line.append(" need attention");
        add_line(&mut lines, line);
        add_line(&mut lines, "".to_string());
    }
    assert(text::strings(lines@) =~= facts.lines());
    lines
}

// ---- laws ----

/// Nothing needs attention exactly where the directory of the settings is there,
/// the clipboard could be looked at, the port is free or the daemon has it, and
/// the Wayland programs are there where they are needed. Each of these that fails
/// counts once.
pub proof fn each_fault_counts_once(facts: Facts)
    ensures
        facts.failed() == 0 <==> facts.config_dir_exists && !(facts.clipboard is Failed) && (
        facts.port_free || facts.daemon_pid is Some) && (!facts.wayland_set || (facts.wl_copy
            && facts.wl_paste)),
        facts.failed() == (if facts.config_dir_exists {
            0int
        } else {
            1int
        }) + (if facts.clipboard is Failed {
            1int
        } else {
            0int
        }) + (if facts.port_free || facts.daemon_pid is Some {
            0int
        } else {
            1int
        }) + (if facts.wayland_set && (!facts.wl_copy || !facts.wl_paste) {
            1int
        } else {
            0int
        }),
{
}

/// The report names this device, each fault with a line, the paired devices, the
/// clipboard and the daemon, and ends with the number of faults where there are
/// some.
pub proof fn report_tells_everything(facts: Facts, i: int)
    ensures
        facts.lines().contains("  "@ + facts.name@),
        !facts.config_dir_exists ==> facts.lines().contains(
            fail_line("config"@, facts.config_dir@),
        ),
        !facts.port_free && facts.daemon_pid is None ==> facts.lines().contains(
            fail_line("port"@, text::decimal(facts.port as nat) + " in use"@),
        ),
        facts.lines().contains(facts.paired_line()),
        facts.lines().contains(facts.clipboard_line()),
        facts.lines().contains(facts.daemon_line()),
        facts.failed() > 0 ==> facts.lines().contains(
            "  "@ + text::decimal(facts.failed() as nat) + " need attention"@,
        ),
        0 <= i < facts.peer_names@.len() ==> text::contains(
            facts.paired_line(),
            facts.peer_names@[i]@,
        ),
        facts.peer_names@.len() == 0 ==> facts.paired_line() == "  paired     none"@,
        facts.daemon_pid matches Some(pid) ==> facts.daemon_line() == "  daemon     running  pid "@
            + text::decimal(pid as nat),
        facts.daemon_pid is None ==> facts.daemon_line() == "  daemon     stopped"@,
        facts.clipboard matches ClipboardState::Failed(why) ==> facts.clipboard_line() == fail_line(
            "clipboard"@,
            why@,
        ),
        facts.clipboard matches ClipboardState::Holds { backend, mime, len }
            ==> facts.clipboard_line() == "  clipboard  "@ + backend@ + "  "@ + mime@ + "  "@
            + text::decimal(len as nat) + " B"@,
        facts.clipboard matches ClipboardState::Empty { backend } ==> facts.clipboard_line()
            == "  clipboard  "@ + backend@ + "  empty"@,
        facts.tailscale matches Some((ip, n)) ==> facts.lines().contains(
            "  tailscale  "@ + discovery::ip_text(ip) + "  "@ + text::decimal(n as nat) + (if n == 1 {
                " peer"@
            } else {
                " peers"@
            }),
        ),
        facts.wayland_set && (!facts.wl_copy || !facts.wl_paste) ==> facts.lines().contains(
            fail_line("wl-clipboard"@, "install with  sudo dnf install wl-clipboard"@),
        ),
{
    let all = facts.lines();
    let device = facts.device_lines();
    let trouble = facts.trouble_lines();
    let running = facts.running_lines();
    let d = device.len() as int;
    let t = d + trouble.len();
    let r = t + running.len();
    assert(device[1] == "  "@ + facts.name@);
    assert(all[1] == device[1]);
    assert(device[d - 2] == facts.paired_line());
    assert(all[d - 2] == device[d - 2]);
    assert(device[d - 1] == facts.clipboard_line());
    assert(all[d - 1] == device[d - 1]);
    if !facts.config_dir_exists {
        assert(device[2] == fail_line("config"@, facts.config_dir@));
        assert(all[2] == device[2]);
    }
    if facts.port_taken() {
        assert(trouble[0] == fail_line("port"@, text::decimal(facts.port as nat) + " in use"@));
        assert(all[d] == trouble[0]);
    }
    if facts.wl_missing() {
        assert(trouble.last() == fail_line(
            "wl-clipboard"@,
            "install with  sudo dnf install wl-clipboard"@,
        ));
        assert(all[t - 1] == trouble.last());
    }
    if facts.tailscale is Some {
        assert(all[t] == running[0]);
    }
    assert(running[running.len() - 2] == facts.daemon_line());
    assert(all[r - 2] == running[running.len() - 2]);
    if facts.failed() > 0 {
        assert(all[r] == facts.summary_lines()[0]);
    }
    if 0 <= i < facts.peer_names@.len() {
        let names = text::strings(facts.peer_names@);
        let one = names[i];
        text::joined_texts_hold_each(names, ", "@, i);
        let list = text::joined(names, ", "@);
        text::parts_are_found(list, seq![], one, seq![]);
        let (a, b) = choose|a: Seq<char>, b: Seq<char>| list == #[trigger] (a + one + b);
        let head = "  paired     "@;
        assert(facts.paired_line() =~= (head + a) + one + b);
        text::parts_are_found(facts.paired_line(), head + a, one, b);
    }
}

/// The report has no other lines than those: it starts with an empty one, and
/// each group ends with one.
pub proof fn report_has_no_other_lines(facts: Facts)
    ensures
        facts.lines().len() == 6 + facts.failed() + (if facts.tailscale is Some {
            1int
        } else {
            0int
        }) + (if facts.failed() > 0 {
            2int
        } else {
            0int
        }) - (if facts.clipboard is Failed {
            1int
        } else {
            0int
        }),
        facts.lines()[0] == ""@,
        facts.lines()[1] == "  "@ + facts.name@,
        facts.lines().last() == ""@,
{
}

/// A line on a fault starts with an exclamation mark and the label, has the
/// detail at its end, and the details of short labels start in one column.
pub proof fn faults_are_aligned(label: Seq<char>, detail: Seq<char>)
    ensures
        text::starts_with(fail_line(label, detail), seq!['!', ' '] + label),
        fail_line(label, detail).skip(fail_line(label, detail).len() - detail.len()) == detail,
        label.len() <= 10 ==> fail_line(label, detail).len() == 13 + detail.len(),
        label.len() > 10 ==> fail_line(label, detail).len() == 3 + label.len() + detail.len(),
        forall|i: int|
            2 + label.len() <= i < fail_line(label, detail).len() - detail.len()
                ==> #[trigger] fail_line(label, detail)[i] == ' ',
{
    reveal_strlit("! ");
    reveal_strlit(" ");
    assert("! "@ =~= seq!['!', ' ']);
    let line = fail_line(label, detail);
    let head = seq!['!', ' '] + label;
    assert(line.take(head.len() as int) =~= head);
    assert(line.skip(line.len() - detail.len()) =~= detail);
}

} // verus!
