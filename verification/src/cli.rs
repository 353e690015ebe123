//! What the commands print.

use vstd::prelude::*;
use vstd::string::*;

use crate::identity::{Identity, Peer, PeerList};
use crate::text;
use crate::text::{add_line, add_text, push_decimal};

verus! {

// ---- the list of paired devices ----

/// The line on a paired device.
pub open spec fn peer_line(peer: Peer) -> Seq<char> {
    peer.device_id@ + "  "@ + peer.name@ + "  "@ + (match peer.last_addr {
        Some(addr) => addr@,
        None => "-"@,
    })
}

/// The lines on the paired devices.
pub open spec fn list_lines(peers: Seq<Peer>) -> Seq<Seq<char>> {
    if peers.len() == 0 {
        seq!["no paired devices"@]
    } else {
        peers.map_values(|p: Peer| peer_line(p))
    }
}

fn line_on(peer: &Peer) -> (r: String)
    ensures
        r@ == peer_line(*peer),
{
    let mut out = peer.device_id.clone();
    out.append("  ");
    out.append(peer.name.as_str());
    out.append("  ");
    match &peer.last_addr {
        Some(addr) => out.append(addr.as_str()),
        None => out.append("-"),
    }
    out
}

/// The lines on the paired devices.
pub fn print_list(peers: &PeerList) -> (r: Vec<String>)
    ensures
        text::strings(r@) == list_lines(peers.peers@),
{
    let mut lines: Vec<String> = Vec::new();
    assert(text::strings(lines@) =~= seq![]);
    if peers.peers.len() == 0 {
        add_text(&mut lines, "no paired devices");
        assert(text::strings(lines@) =~= list_lines(peers.peers@));
        return lines;
    }
    let mut i: usize = 0;
    while i < peers.peers.len()
        invariant
            i <= peers.peers@.len(),
            text::strings(lines@) == peers.peers@.take(i as int).map_values(
                |p: Peer| peer_line(p),
            ),
        decreases peers.peers@.len() - i,
    {
        add_line(&mut lines, line_on(&peers.peers[i]));
        i += 1;
        assert(text::strings(lines@) =~= peers.peers@.take(i as int).map_values(
            |p: Peer| peer_line(p),
        ));
    }
    assert(peers.peers@.take(i as int) =~= peers.peers@);
    lines
}

// ---- the status ----

/// A device, by its name and its id.
pub open spec fn device_text(name: Seq<char>, device_id: Seq<char>) -> Seq<char> {
    name + " ("@ + device_id + ")"@
}

fn push_device(out: &mut String, name: &str, device_id: &str)
    ensures
        final(out)@ == old(out)@ + device_text(name@, device_id@),
{
    out.append(name);
    out.append(" (");
    out.append(device_id);
    out.append(")");
    assert(out@ =~= old(out)@ + device_text(name@, device_id@));
}

/// What is told of a daemon that does not run.
pub open spec fn stopped_lines(id: Identity, peers: Seq<Peer>) -> Seq<Seq<char>> {
    seq!["daemon: stopped"@, "device: "@ + device_text(id.name@, id.device_id@)] + list_lines(
        peers,
    )
}

/// What is told of a daemon that does not run.
pub fn print_stopped(id: &Identity, peers: &PeerList) -> (r: Vec<String>)
    ensures
        text::strings(r@) == stopped_lines(*id, peers.peers@),
{
    let mut lines: Vec<String> = Vec::new();
    assert(text::strings(lines@) =~= seq![]);
    add_text(&mut lines, "daemon: stopped");
    let mut device = "device: ".to_string();
    push_device(&mut device, id.name.as_str(), id.device_id.as_str());
    add_line(&mut lines, device);
    let ghost head = lines@;
    let mut list = print_list(peers);
    let ghost tail = list@;
    lines.append(&mut list);
    assert(lines@ =~= head + tail);
    assert(text::strings(lines@) =~= text::strings(head) + text::strings(tail));
    assert(text::strings(lines@) =~= stopped_lines(*id, peers.peers@));
    lines
}

// ---- the introduction ----

/// The lines on the paired devices in the introduction.
pub open spec fn intro_peers(peers: Seq<Peer>) -> Seq<Seq<char>> {
    peers.map_values(|p: Peer| "      "@ + device_text(p.name@, p.device_id@))
}

/// What is printed without a command.
pub open spec fn intro_lines(
    version: Seq<char>,
    id: Identity,
    config_dir: Seq<char>,
    peers: Seq<Peer>,
    running: bool,
    port: u16,
) -> Seq<Seq<char>> {
    seq![
        "pastebridge "@ + version,
        ""@,
        "  This computer : "@ + device_text(id.name@, id.device_id@),
        "  Config        : "@ + config_dir,
        ""@,
    ] + (if peers.len() == 0 {
        seq![
            "  Not paired yet. On both computers run:"@,
            ""@,
            "      pastebridge pair"@,
            ""@,
            "  Compare the codes, type y, then:"@,
            ""@,
            "      pastebridge install-service"@,
        ]
    } else {
        seq!["  Paired with:"@] + intro_peers(peers) + seq![""@] + (if running {
            seq!["  Daemon is running. Copy here, paste there."@]
        } else {
            seq![
                "  Daemon is not running. Start it with:"@,
                ""@,
                "      pastebridge start"@,
                "      pastebridge install-service"@,
            ]
        })
    }) + seq![
        ""@,
        "  Commands: pair, start, status, doctor, install-service"@,
        "  Port "@ + text::decimal(port as nat) + "  (UDP, QUIC)"@,
    ]
}

fn add_intro_peers(lines: &mut Vec<String>, peers: &PeerList)
    ensures
        text::strings(final(lines)@) == text::strings(old(lines)@) + intro_peers(
            peers.peers@,
        ),
{
    let ghost start = text::strings(lines@);
    let mut i: usize = 0;
    assert(start + intro_peers(peers.peers@.take(0)) =~= start);
    while i < peers.peers.len()
        invariant
            i <= peers.peers@.len(),
            text::strings(lines@) == start + intro_peers(peers.peers@.take(i as int)),
        decreases peers.peers@.len() - i,
    {
        let mut line = "      ".to_string();
        push_device(
            &mut line,
            peers.peers[i].name.as_str(),
            peers.peers[i].device_id.as_str(),
        );
        add_line(lines, line);
        i += 1;
        assert(text::strings(lines@) =~= start + intro_peers(peers.peers@.take(i as int)));
    }
    assert(peers.peers@.take(i as int) =~= peers.peers@);
}

/// What is printed without a command.
pub fn print_intro(
    version: &str,
    id: &Identity,
    config_dir: &str,
    peers: &PeerList,
    running: bool,
    port: u16,
) -> (r: Vec<String>)
    ensures
        text::strings(r@) == intro_lines(
            version@,
            *id,
            config_dir@,
            peers.peers@,
            running,
            port,
        ),
{
    let mut lines: Vec<String> = Vec::new();
    assert(text::strings(lines@) =~= seq![]);
    let mut title = "pastebridge ".to_string();
    title.append(version);
    add_line(&mut lines, title);
    add_text(&mut lines, "");
    let mut computer = "  This computer : ".to_string();
    push_device(&mut computer, id.name.as_str(), id.device_id.as_str());
    add_line(&mut lines, computer);
    let mut config = "  Config        : ".to_string();
    config.append(config_dir);
    add_line(&mut lines, config);
    add_text(&mut lines, "");
    if peers.peers.len() == 0 {
        add_text(&mut lines, "  Not paired yet. On both computers run:");
        add_text(&mut lines, "");
        add_text(&mut lines, "      pastebridge pair");
        add_text(&mut lines, "");
        add_text(&mut lines, "  Compare the codes, type y, then:");
        add_text(&mut lines, "");
        add_text(&mut lines, "      pastebridge install-service");
    } else {
        add_text(&mut lines, "  Paired with:");
        add_intro_peers(&mut lines, peers);
        add_text(&mut lines, "");
        if running {
            add_text(&mut lines, "  Daemon is running. Copy here, paste there.");
        } else {
            add_text(&mut lines, "  Daemon is not running. Start it with:");
            add_text(&mut lines, "");
            add_text(&mut lines, "      pastebridge start");
            add_text(&mut lines, "      pastebridge install-service");
        }
    }
    add_text(&mut lines, "");
    add_text(&mut lines, "  Commands: pair, start, status, doctor, install-service");
    let mut line = "  Port ".to_string();
    push_decimal(&mut line, port as u128);
    line.append("  (UDP, QUIC)");
    add_line(&mut lines, line);
    assert(text::strings(lines@) =~= intro_lines(
        version@,
        *id,
        config_dir@,
        peers.peers@,
        running,
        port,
    ));
    lines
}

// ---- forgetting a device ----

/// What becomes of the list of peers, and what is told, when a device is
/// forgotten.
pub fn unpair(peers: &mut PeerList, device_id: &str) -> (r: Result<String, String>)
    ensures
        final(peers).peers@ == crate::identity::without(old(peers).peers@, device_id@),
        match r {
            Ok(line) => crate::identity::place(old(peers).peers@, device_id@) < old(
                peers,
            ).peers@.len() && line@ == "forgot "@ + device_id@,
            Err(line) => crate::identity::place(old(peers).peers@, device_id@) >= old(
                peers,
            ).peers@.len() && line@ == "no paired device named "@ + device_id@,
        },
{
    if peers.remove(device_id) {
        let mut line = "forgot ".to_string();
        line.append(device_id);
        Ok(line)
    } else {
        let mut line = "no paired device named ".to_string();
        line.append(device_id);
        Err(line)
    }
}

// ---- laws ----

/// Each paired device has a line of its own, in the order of the list, with its
/// id, its name and its address. Where there is none, that is said.
pub proof fn every_paired_device_is_listed(peers: Seq<Peer>, i: int)
    ensures
        peers.len() == 0 ==> list_lines(peers) == seq!["no paired devices"@],
        peers.len() > 0 ==> list_lines(peers).len() == peers.len(),
        0 <= i < peers.len() ==> list_lines(peers)[i] == peers[i].device_id@ + "  "@
            + peers[i].name@ + "  "@ + (match peers[i].last_addr {
            Some(addr) => addr@,
            None => "-"@,
        }),
{
}

/// The introduction names this device and every paired one, and says how to go
/// on: to pair where there is no paired device, to start the daemon where it does
/// not run.
pub proof fn introduction_tells_how_to_go_on(
    version: Seq<char>,
    id: Identity,
    config_dir: Seq<char>,
    peers: Seq<Peer>,
    running: bool,
    port: u16,
    i: int,
)
    ensures
        ({
            let lines = intro_lines(version, id, config_dir, peers, running, port);
            &&& lines[0] == "pastebridge "@ + version
            &&& lines[2] == "  This computer : "@ + (id.name@ + " ("@ + id.device_id@ + ")"@)
            &&& lines[3] == "  Config        : "@ + config_dir
            &&& lines.last() == "  Port "@ + text::decimal(port as nat) + "  (UDP, QUIC)"@
            &&& peers.len() == 0 ==> lines.contains("      pastebridge pair"@)
            &&& 0 <= i < peers.len() ==> lines.len() > 6 + i && lines[6 + i] == "      "@ + (
            peers[i].name@ + " ("@ + peers[i].device_id@ + ")"@)
            &&& peers.len() > 0 && running ==> lines.contains(
                "  Daemon is running. Copy here, paste there."@,
            )
            &&& peers.len() > 0 && !running ==> lines.contains("      pastebridge start"@)
        }),
{
    let lines = intro_lines(version, id, config_dir, peers, running, port);
    if peers.len() == 0 {
        assert(lines[7] == "      pastebridge pair"@);
    } else if running {
        assert(lines[7 + peers.len() as int] == "  Daemon is running. Copy here, paste there."@);
    } else {
        assert(lines[9 + peers.len() as int] == "      pastebridge start"@);
    }
}

/// Of a daemon that does not run it is told that it does not, which device this
/// is, and which are paired.
pub proof fn stopped_daemon_is_told(id: Identity, peers: Seq<Peer>)
    ensures
        stopped_lines(id, peers)[0] == "daemon: stopped"@,
        stopped_lines(id, peers)[1] == "device: "@ + (id.name@ + " ("@ + id.device_id@ + ")"@),
        stopped_lines(id, peers).skip(2) == list_lines(peers),
{
    assert(stopped_lines(id, peers).skip(2) =~= list_lines(peers));
}

} // verus!
