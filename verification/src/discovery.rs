//! How devices find each other: what is announced on the local network, what
//! is made of the announcements of others, and of the nodes of a tailnet.

use vstd::prelude::*;
use vstd::string::*;

use crate::text;
use crate::text::{chars_of, has_part, has_prefix, lowercase_of, push_decimal, same, string_of};

verus! {

/// The service under which a daemon is announced.
pub const SERVICE: &'static str = "_pastebridge._udp.local.";

/// The service under which a device that can be paired is announced.
pub const PAIR_SERVICE: &'static str = "_pastebridge-pair._udp.local.";

// ---- addresses ----

/// An address of the fourth version of the internet protocol, its first part
/// in the highest byte, and a port.
#[derive(Debug, Clone, Copy, PartialEq, Eq, Structural)]
pub struct Addr4 {
    pub ip: u32,
    pub port: u16,
}

/// One of the four parts of an address.
pub open spec fn ip_part(ip: u32, k: int) -> nat {
    if k == 0 {
        (ip / 0x1000000) as nat
    } else if k == 1 {
        (ip / 0x10000 % 0x100) as nat
    } else if k == 2 {
        (ip / 0x100 % 0x100) as nat
    } else {
        (ip % 0x100) as nat
    }
}

/// The text of an address.
pub open spec fn ip_text(ip: u32) -> Seq<char> {
    text::decimal(ip_part(ip, 0)) + "."@ + text::decimal(ip_part(ip, 1)) + "."@ + text::decimal(
        ip_part(ip, 2),
    ) + "."@ + text::decimal(ip_part(ip, 3))
}

/// Writes an address.
pub fn ip_string(ip: u32) -> (r: String)
    ensures
        r@ == ip_text(ip),
{
    let mut out = String::new();
    push_decimal(&mut out, (ip / 0x1000000) as u128);
    assert(out@ =~= text::decimal(ip_part(ip, 0)));
    out.append(".");
    push_decimal(&mut out, (ip / 0x10000 % 0x100) as u128);
    out.append(".");
    push_decimal(&mut out, (ip / 0x100 % 0x100) as u128);
    out.append(".");
    push_decimal(&mut out, (ip % 0x100) as u128);
    out
}

/// Whether an address is one of this machine alone.
pub open spec fn is_loopback(ip: u32) -> bool {
    ip_part(ip, 0) == 127
}

/// Whether an address is valid on one link only.
pub open spec fn is_link_local(ip: u32) -> bool {
    ip_part(ip, 0) == 169 && ip_part(ip, 1) == 254
}

/// Whether an address is that of a group.
pub open spec fn is_multicast(ip: u32) -> bool {
    224 <= ip_part(ip, 0) <= 239
}

fn loopback(ip: u32) -> (r: bool)
    ensures
        r == is_loopback(ip),
{
    ip / 0x1000000 == 127
}

/// A network interface and one of its addresses. Only addresses of the fourth
/// version are of interest.
#[derive(Debug)]
pub struct Interface {
    pub name: String,
    pub ip: Option<u32>,
}

/// Whether an interface is one of this machine alone, by its name.
pub open spec fn is_internal(name: Seq<char>) -> bool {
    let lower = text::lowercase(name);
    text::starts_with(lower, "lo"@) || text::contains(lower, "docker"@) || text::starts_with(
        lower,
        "veth"@,
    )
}

/// Whether an interface has an address at which others reach this machine.
pub open spec fn is_reachable(i: Interface) -> bool {
    &&& !is_internal(i.name@)
    &&& i.ip matches Some(ip) && !is_loopback(ip) && !is_link_local(ip) && !is_multicast(ip)
}

/// Whether an address is one at which others reach this machine: one of its
/// interfaces, or, where there is none, the address that the system prefers.
pub open spec fn is_local(interfaces: Seq<Interface>, preferred: Option<u32>, ip: u32) -> bool {
    if exists|i: int| 0 <= i < interfaces.len() && is_reachable(#[trigger] interfaces[i]) {
        exists|i: int|
            0 <= i < interfaces.len() && is_reachable(#[trigger] interfaces[i])
                && interfaces[i].ip == Some(ip)
    } else {
        preferred == Some(ip)
    }
}

/// Whether numbers rise, so that none comes twice.
pub open spec fn rises(s: Seq<u32>) -> bool {
    forall|i: int, j: int| 0 <= i < j < s.len() ==> s[i] < s[j]
}

fn internal(name: &str) -> (r: bool)
    ensures
        r == is_internal(name@),
{
    let chars = chars_of(name);
    let lower = lowercase_of(chars.as_slice());
    let lo = chars_of("lo");
    let docker = chars_of("docker");
    let veth = chars_of("veth");
    has_prefix(lower.as_slice(), lo.as_slice()) || has_part(lower.as_slice(), docker.as_slice())
        || has_prefix(lower.as_slice(), veth.as_slice())
}

fn reachable(i: &Interface) -> (r: bool)
    ensures
        r == is_reachable(*i),
{
    if internal(i.name.as_str()) {
        return false;
    }
    match i.ip {
        Some(ip) => {
            let first: u32 = ip / 0x1000000;
            let second: u32 = ip / 0x10000 % 0x100;
            !(first == 127) && !(first == 169 && second == 254) && !(224 <= first && first <= 239)
        },
        None => false,
    }
}

/// Puts a number in its place among rising numbers, unless it is there.
fn insert_rising(out: &mut Vec<u32>, ip: u32)
    requires
        rises(old(out)@),
    ensures
        rises(final(out)@),
        forall|x: u32| #[trigger] final(out)@.contains(x) <==> old(out)@.contains(x) || x == ip,
{
    let ghost before = out@;
    let mut k: usize = 0;
    while k < out.len() && out[k] < ip
        invariant
            k <= out@.len(),
            out@ == before,
            forall|j: int| 0 <= j < k ==> out@[j] < ip,
        decreases out@.len() - k,
    {
        k += 1;
    }
    if k < out.len() && out[k] == ip {
        assert(before[k as int] == ip);
        return;
    }
    out.insert(k, ip);
    let ghost after = out@;
    assert(after =~= before.insert(k as int, ip));
    assert forall|i: int, j: int| 0 <= i < j < after.len() implies after[i] < after[j] by {
        if k < before.len() {
            assert(before[k as int] > ip);
        }
        if j > k {
            assert(after[j] == before[j - 1]);
            if k < j - 1 {
                assert(before[k as int] < before[j - 1]);
            }
        }
        if i > k {
            assert(after[i] == before[i - 1]);
        }
    }
    assert forall|x: u32| #[trigger] after.contains(x) <==> before.contains(x) || x == ip by {
        if before.contains(x) {
            let i = choose|i: int| 0 <= i < before.len() && before[i] == x;
            if i < k {
                assert(after[i] == x);
            } else {
                assert(after[i + 1] == x);
            }
        }
        if x == ip {
            assert(after[k as int] == x);
        }
        if after.contains(x) && x != ip {
            let i = choose|i: int| 0 <= i < after.len() && after[i] == x;
            if i < k {
                assert(before[i] == x);
            } else {
                assert(before[i - 1] == x);
            }
        }
    }
}

/// The addresses at which others reach this machine, in rising order and each
/// once.
pub fn local_ipv4s(interfaces: &Vec<Interface>, preferred: Option<u32>) -> (r: Vec<u32>)
    ensures
        rises(r@),
        forall|ip: u32| #[trigger] r@.contains(ip) <==> is_local(interfaces@, preferred, ip),
{
    let mut out: Vec<u32> = Vec::new();
    let mut i: usize = 0;
    while i < interfaces.len()
        invariant
            i <= interfaces@.len(),
            rises(out@),
            forall|ip: u32| #[trigger]
                out@.contains(ip) <==> exists|j: int|
                    0 <= j < i && is_reachable(#[trigger] interfaces@[j]) && interfaces@[j].ip
                        == Some(ip),
        decreases interfaces@.len() - i,
    {
        if reachable(&interfaces[i]) {
            if let Some(ip) = interfaces[i].ip {
                insert_rising(&mut out, ip);
            }
        }
        i += 1;
    }
    if out.len() == 0 {
        assert forall|j: int| 0 <= j < interfaces@.len() implies !is_reachable(
            #[trigger] interfaces@[j],
        ) by {
            if is_reachable(interfaces@[j]) {
                assert(out@.contains(interfaces@[j].ip->0));
            }
        }
        if let Some(ip) = preferred {
            out.push(ip);
            assert(out@ =~= seq![ip]);
            assert(out@[0] == ip);
        }
    } else {
        assert(out@.contains(out@[0]));
    }
    out
}

// ---- what is announced ----

/// A character of a label.
pub open spec fn label_char(c: char) -> char {
    if ('0' <= c <= '9') || ('a' <= c <= 'z') || ('A' <= c <= 'Z') || c == '-' {
        c
    } else {
        '-'
    }
}

/// The longest label.
pub const MAX_LABEL: usize = 63;

/// A text as a label: other characters than letters, digits and hyphens become
/// hyphens, and at most as many characters are kept as a label has.
pub open spec fn label(s: Seq<char>) -> Seq<char> {
    if s.len() == 0 {
        "pastebridge"@
    } else {
        let chars = s.map_values(|c: char| label_char(c));
        if chars.len() > MAX_LABEL {
            chars.take(MAX_LABEL as int)
        } else {
            chars
        }
    }
}

/// Makes a label of a text.
pub fn sanitize_label(s: &str) -> (r: String)
    ensures
        r@ == label(s@),
{
    let chars = chars_of(s);
    if chars.len() == 0 {
        return "pastebridge".to_string();
    }
    let mut out: Vec<char> = Vec::new();
    let ghost all = s@.map_values(|c: char| label_char(c));
    let mut i: usize = 0;
    while i < chars.len() && i < MAX_LABEL
        invariant
            i <= chars@.len(),
            i <= MAX_LABEL,
            chars@ == s@,
            all == s@.map_values(|c: char| label_char(c)),
            out@ == all.take(i as int),
        decreases chars@.len() - i,
    {
        let c = chars[i];
        if ('0' <= c && c <= '9') || ('a' <= c && c <= 'z') || ('A' <= c && c <= 'Z') || c == '-' {
            out.push(c);
        } else {
            out.push('-');
        }
        i += 1;
        assert(out@ =~= all.take(i as int));
    }
    assert(all.len() == s@.len());
    if chars.len() <= MAX_LABEL {
        assert(all.take(i as int) =~= all);
    }
    string_of(out.as_slice())
}

/// A label has at least one character and at most as many as allowed, and only
/// letters, digits and hyphens.
pub proof fn labels_are_labels(s: Seq<char>)
    ensures
        s.len() == 0 ==> label(s) == "pastebridge"@,
        0 < label(s).len() <= MAX_LABEL,
        forall|i: int| 0 <= i < label(s).len() ==> label_char(#[trigger] label(s)[i]) == label(s)[i],
{
    reveal_strlit("pastebridge");
    if s.len() == 0 {
        assert forall|i: int| 0 <= i < "pastebridge"@.len() implies label_char(
            #[trigger] "pastebridge"@[i],
        ) == "pastebridge"@[i] by {}
    }
}

/// What is announced of a device.
#[derive(Debug)]
pub struct Announcement {
    pub instance: String,
    pub host: String,
    pub port: u16,
    pub id: String,
    pub name: String,
    pub version: String,
}

/// What to announce of a device on a machine with this host name. There is
/// nothing to announce where nobody can reach the machine.
pub fn announcement(
    device_id: &str,
    name: &str,
    port: u16,
    host_name: Option<&str>,
    ips: &Vec<u32>,
) -> (r: Option<Announcement>)
    ensures
        r is Some <==> ips@.len() > 0,
        r matches Some(a) ==> {
            &&& a.instance@ == label(device_id@)
            &&& a.host@ == (match host_name {
                Some(h) => label(h@),
                None => "pastebridge"@,
            }) + ".local."@
            &&& a.port == port
            &&& a.id@ == device_id@
            &&& a.name@ == name@
            &&& a.version@ == "1"@
        },
{
    if ips.len() == 0 {
        return None;
    }
    let mut host = match host_name {
        Some(h) => sanitize_label(h),
        None => "pastebridge".to_string(),
    };
    host.append(".local.");
    Some(
        Announcement {
            instance: sanitize_label(device_id),
            host,
            port,
            id: device_id.to_string(),
            name: name.to_string(),
            version: "1".to_string(),
        },
    )
}

// ---- what is found ----

/// A device that was found.
#[derive(Debug)]
pub struct FoundPeer {
    pub device_id: String,
    pub name: String,
    pub addr: Addr4,
}

/// What another device announced.
#[derive(Debug)]
pub struct Announced {
    pub id: Option<String>,
    pub name: Option<String>,
    /// The full name of the service, by which a device without a name is
    /// known.
    pub full_name: String,
    pub port: u16,
    /// The addresses; those of another version than the fourth are missing.
    pub ips: Vec<Option<u32>>,
}

impl Announced {
    /// The id of the device; it is empty where none was announced.
    pub open spec fn device_id(self) -> Seq<char> {
        match self.id {
            Some(id) => id@,
            None => ""@,
        }
    }

    /// The name of the device.
    pub open spec fn device_name(self) -> Seq<char> {
        match self.name {
            Some(name) => name@,
            None => self.full_name@,
        }
    }
}

/// The addresses of a device at which it is reached.
pub open spec fn usable_ips(ips: Seq<Option<u32>>) -> Seq<u32>
    decreases ips.len(),
{
    if ips.len() == 0 {
        seq![]
    } else {
        match ips.last() {
            Some(ip) => if is_loopback(ip) {
                usable_ips(ips.drop_last())
            } else {
                usable_ips(ips.drop_last()).push(ip)
            },
            None => usable_ips(ips.drop_last()),
        }
    }
}

/// The device that was found by an announcement, once for each address at
/// which it is reached.
pub fn found_peers(announced: &Announced) -> (r: Vec<FoundPeer>)
    ensures
        r@.len() == usable_ips(announced.ips@).len(),
        forall|i: int|
            0 <= i < r@.len() ==> {
                &&& (#[trigger] r@[i]).device_id@ == announced.device_id()
                &&& r@[i].name@ == announced.device_name()
                &&& r@[i].addr == (Addr4 {
                    ip: usable_ips(announced.ips@)[i],
                    port: announced.port,
                })
            },
{
    let mut out: Vec<FoundPeer> = Vec::new();
    let mut i: usize = 0;
    while i < announced.ips.len()
        invariant
            i <= announced.ips@.len(),
            out@.len() == usable_ips(announced.ips@.take(i as int)).len(),
            forall|j: int|
                0 <= j < out@.len() ==> {
                    &&& (#[trigger] out@[j]).device_id@ == announced.device_id()
                    &&& out@[j].name@ == announced.device_name()
                    &&& out@[j].addr == (Addr4 {
                        ip: usable_ips(announced.ips@.take(i as int))[j],
                        port: announced.port,
                    })
                },
        decreases announced.ips@.len() - i,
    {
        assert(announced.ips@.take(i as int + 1).drop_last() =~= announced.ips@.take(i as int));
        if let Some(ip) = announced.ips[i] {
            if !loopback(ip) {
                out.push(
                    FoundPeer {
                        device_id: match &announced.id {
                            Some(id) => id.clone(),
                            None => "".to_string(),
                        },
                        name: match &announced.name {
                            Some(name) => name.clone(),
                            None => announced.full_name.clone(),
                        },
                        addr: Addr4 { ip, port: announced.port },
                    },
                );
            }
        }
        i += 1;
    }
    assert(announced.ips@.take(i as int) =~= announced.ips@);
    out
}

// ---- the tailnet ----

/// A node of a tailnet.
#[derive(Debug)]
pub struct TailscalePeer {
    pub name: String,
    pub ip: u32,
    pub os: String,
    pub online: bool,
}

/// A tailnet, seen from this machine.
#[derive(Debug)]
pub struct TailscaleNetwork {
    pub local_ip: u32,
    pub peers: Vec<TailscalePeer>,
}

/// Whether a system is that of a phone or a tablet.
pub open spec fn is_mobile(os: Seq<char>) -> bool {
    text::lowercase(os) == "ios"@ || text::lowercase(os) == "android"@
}

/// Whether a node may be a device to pair with: it is online and not mobile.
pub open spec fn is_pairable(peer: TailscalePeer) -> bool {
    peer.online && !is_mobile(peer.os@)
}

/// The places of the nodes that may be devices to pair with.
pub open spec fn pairable_places(peers: Seq<TailscalePeer>) -> Seq<int>
    decreases peers.len(),
{
    if peers.len() == 0 {
        seq![]
    } else if is_pairable(peers.last()) {
        pairable_places(peers.drop_last()).push(peers.len() - 1)
    } else {
        pairable_places(peers.drop_last())
    }
}

fn mobile(os: &str) -> (r: bool)
    ensures
        r == is_mobile(os@),
{
    let chars = chars_of(os);
    let lower = lowercase_of(chars.as_slice());
    let ios = chars_of("ios");
    let android = chars_of("android");
    same(lower.as_slice(), ios.as_slice()) || same(lower.as_slice(), android.as_slice())
}

impl TailscaleNetwork {
    /// The places of the nodes that may be devices to pair with, in their
    /// order.
    pub fn pairable_peers(&self) -> (r: Vec<usize>)
        ensures
            r@.len() == pairable_places(self.peers@).len(),
            forall|i: int|
                0 <= i < r@.len() ==> #[trigger] r@[i] == pairable_places(self.peers@)[i] && r@[i]
                    < self.peers@.len() && is_pairable(self.peers@[r@[i] as int]),
    {
        let mut out: Vec<usize> = Vec::new();
        let mut i: usize = 0;
        while i < self.peers.len()
            invariant
                i <= self.peers@.len(),
                out@.len() == pairable_places(self.peers@.take(i as int)).len(),
                forall|j: int|
                    0 <= j < out@.len() ==> #[trigger] out@[j] == pairable_places(
                        self.peers@.take(i as int),
                    )[j] && out@[j] < i && is_pairable(self.peers@[out@[j] as int]),
            decreases self.peers@.len() - i,
        {
            assert(self.peers@.take(i as int + 1).drop_last() =~= self.peers@.take(i as int));
            if self.peers[i].online && !mobile(self.peers[i].os.as_str()) {
                out.push(i);
            }
            i += 1;
        }
        assert(self.peers@.take(i as int) =~= self.peers@);
        out
    }
}

// ---- laws ----

/// The parts of an address, put together again, are the address. Its text is the
/// four parts in decimal with dots between them, so it tells the address.
pub proof fn addresses_are_told_by_their_text(ip: u32, other: u32)
    ensures
        ((ip_part(ip, 0) * 256 + ip_part(ip, 1)) * 256 + ip_part(ip, 2)) * 256 + ip_part(ip, 3)
            == ip,
        text::split(ip_text(ip), '.') == seq![
            text::decimal(ip_part(ip, 0)),
            text::decimal(ip_part(ip, 1)),
            text::decimal(ip_part(ip, 2)),
            text::decimal(ip_part(ip, 3)),
        ],
        forall|k: int| 0 <= k < 4 ==> #[trigger] ip_part(ip, k) < 256,
        ip_text(ip) == ip_text(other) ==> ip == other,
{
    lemma_parts_make_the_address(ip);
    lemma_parts_make_the_address(other);
    lemma_address_is_split(ip);
    lemma_address_is_split(other);
    if ip_text(ip) == ip_text(other) {
        let all = text::split(ip_text(ip), '.');
        assert forall|k: int| 0 <= k < 4 implies ip_part(ip, k) == ip_part(other, k) by {
            assert(all[0] == text::decimal(ip_part(ip, 0)) && all[0] == text::decimal(
                ip_part(other, 0),
            ));
            assert(all[1] == text::decimal(ip_part(ip, 1)) && all[1] == text::decimal(
                ip_part(other, 1),
            ));
            assert(all[2] == text::decimal(ip_part(ip, 2)) && all[2] == text::decimal(
                ip_part(other, 2),
            ));
            assert(all[3] == text::decimal(ip_part(ip, 3)) && all[3] == text::decimal(
                ip_part(other, 3),
            ));
            text::decimal_is_read_back(ip_part(ip, k), ip_part(ip, k));
            text::decimal_is_read_back(ip_part(other, k), ip_part(other, k));
        }
        assert(ip_part(ip, 0) == ip_part(other, 0));
        assert(ip_part(ip, 1) == ip_part(other, 1));
        assert(ip_part(ip, 2) == ip_part(other, 2));
        assert(ip_part(ip, 3) == ip_part(other, 3));
    }
}

proof fn lemma_parts_make_the_address(ip: u32)
    ensures
        ((ip_part(ip, 0) * 256 + ip_part(ip, 1)) * 256 + ip_part(ip, 2)) * 256 + ip_part(ip, 3)
            == ip,
        forall|k: int| 0 <= k < 4 ==> #[trigger] ip_part(ip, k) < 256,
{
}

proof fn lemma_decimals_lack_dots(n: nat)
    ensures
        text::lacks(text::decimal(n), '.'),
{
    text::decimal_is_read_back(n, n);
    let d = text::decimal(n);
    assert forall|i: int| 0 <= i < d.len() implies #[trigger] d[i] != '.' by {
        assert(text::is_digit(d[i]));
    }
}

proof fn lemma_address_is_split(ip: u32)
    ensures
        text::split(ip_text(ip), '.') == seq![
            text::decimal(ip_part(ip, 0)),
            text::decimal(ip_part(ip, 1)),
            text::decimal(ip_part(ip, 2)),
            text::decimal(ip_part(ip, 3)),
        ],
{
    reveal_strlit(".");
    let dot = seq!['.'];
    assert("."@ =~= dot);
    let a = text::decimal(ip_part(ip, 0));
    let b = text::decimal(ip_part(ip, 1));
    let c = text::decimal(ip_part(ip, 2));
    let d = text::decimal(ip_part(ip, 3));
    lemma_decimals_lack_dots(ip_part(ip, 0));
    lemma_decimals_lack_dots(ip_part(ip, 1));
    lemma_decimals_lack_dots(ip_part(ip, 2));
    lemma_decimals_lack_dots(ip_part(ip, 3));
    let cd = c + dot + d;
    let bcd = b + dot + cd;
    assert(ip_text(ip) =~= a + dot + bcd);
    text::fields_end_at_separators(a, '.', bcd);
    text::fields_end_at_separators(b, '.', cd);
    text::fields_end_at_separators(c, '.', d);
    text::fields_end_at_separators(d, '.', d);
    assert(text::split(ip_text(ip), '.') =~= seq![a, b, c, d]);
}

/// An interface is reached by others where it has an address that is neither
/// 127.x.x.x, nor 169.254.x.x, nor 224.x.x.x to 239.x.x.x, and where its name
/// neither starts with `lo` or `veth` nor holds `docker`, in capitals or not.
pub proof fn interfaces_are_reached_by_address_and_name(
    i: Interface,
    a: u8,
    b: u8,
    c: u8,
    d: u8,
)
    requires
        i.ip == Some((((a * 256 + b) * 256 + c) * 256 + d) as u32),
    ensures
        is_reachable(i) <==> !is_internal(i.name@) && a != 127 && !(a == 169 && b == 254) && !(224
            <= a <= 239),
{
    let n = ((a * 256 + b) * 256 + c) * 256 + d;
    assert(0 <= n <= u32::MAX);
    assert(n / 0x1000000 == a);
    assert(n / 0x10000 % 0x100 == b);
}

/// An interface without an address is not reached.
pub proof fn interfaces_without_address_are_not_reached(i: Interface)
    requires
        i.ip is None,
    ensures
        !is_reachable(i),
{
}

/// Names of interfaces count in capitals and small letters alike.
pub proof fn internal_names_are_known(name: Seq<char>, rest: Seq<char>, before: Seq<char>)
    ensures
        is_internal("lo"@ + rest),
        is_internal("veth"@ + rest),
        is_internal(before + "docker"@ + rest),
        is_internal(name) == is_internal(text::lowercase(name)),
        is_internal(name) ==> text::starts_with(text::lowercase(name), "lo"@) || text::starts_with(
            text::lowercase(name),
            "veth"@,
        ) || text::contains(text::lowercase(name), "docker"@),
{
    reveal_strlit("lo");
    reveal_strlit("veth");
    reveal_strlit("docker");
    assert(text::lowercase("lo"@ + rest) =~= "lo"@ + text::lowercase(rest));
    text::beginnings_are_found("lo"@, "lo"@, text::lowercase(rest));
    assert(text::lowercase("veth"@ + rest) =~= "veth"@ + text::lowercase(rest));
    text::beginnings_are_found("veth"@, "veth"@, text::lowercase(rest));
    assert(text::lowercase(before + "docker"@ + rest) =~= text::lowercase(before) + "docker"@
        + text::lowercase(rest));
    text::parts_are_found("docker"@, text::lowercase(before), "docker"@, text::lowercase(rest));
    assert(text::lowercase(text::lowercase(name)) =~= text::lowercase(name));
}

/// Every address of a reached interface is one of this machine, whatever the
/// system prefers. The preferred one counts only where no interface is reached.
pub proof fn reached_interfaces_are_local(
    interfaces: Seq<Interface>,
    preferred: Option<u32>,
    i: int,
    ip: u32,
)
    requires
        0 <= i < interfaces.len(),
    ensures
        is_reachable(interfaces[i]) && interfaces[i].ip == Some(ip) ==> is_local(
            interfaces,
            preferred,
            ip,
        ),
        (forall|j: int| 0 <= j < interfaces.len() ==> !is_reachable(#[trigger] interfaces[j]))
            ==> (is_local(interfaces, preferred, ip) <==> preferred == Some(ip)),
        is_reachable(interfaces[i]) && is_local(interfaces, preferred, ip) ==> exists|j: int|
            0 <= j < interfaces.len() && is_reachable(#[trigger] interfaces[j])
                && interfaces[j].ip == Some(ip),
{
}

/// A text of at most 63 letters, digits and hyphens is a label as it is. In any
/// other text each other character becomes one hyphen, and what is too long is
/// cut at the end.
pub proof fn labels_keep_what_they_can(s: Seq<char>, i: int)
    requires
        s.len() > 0,
    ensures
        label(s).len() == (if s.len() <= 63 {
            s.len()
        } else {
            63
        }),
        0 <= i < label(s).len() ==> {
            let kept = 'a' <= s[i] <= 'z' || 'A' <= s[i] <= 'Z' || '0' <= s[i] <= '9';
            label(s)[i] == (if kept {
                s[i]
            } else {
                '-'
            })
        },
{
}

/// The addresses at which a device is reached are those that it announced, in
/// their order, without the loopback ones and those of another version.
pub proof fn announced_addresses_are_used_in_order(a: Seq<Option<u32>>, b: Seq<Option<u32>>, ip: u32)
    ensures
        usable_ips(a + b) == usable_ips(a) + usable_ips(b),
        usable_ips(seq![Some(ip)]) == (if ip / 0x1000000 == 127 {
            Seq::<u32>::empty()
        } else {
            seq![ip]
        }),
        usable_ips(seq![None::<u32>]) == Seq::<u32>::empty(),
    decreases b.len(),
{
    let none = Seq::<Option<u32>>::empty();
    assert(usable_ips(none) =~= Seq::<u32>::empty());
    let one = seq![Some(ip)];
    assert(one.drop_last() =~= none);
    assert(one.last() == Some(ip));
    assert(usable_ips(one) =~= (if ip / 0x1000000 == 127 {
        Seq::<u32>::empty()
    } else {
        seq![ip]
    }));
    let missing = seq![None::<u32>];
    assert(missing.drop_last() =~= none);
    assert(missing.last() is None);
    if b.len() == 0 {
        assert(a + b =~= a);
        assert(usable_ips(a) + usable_ips(b) =~= usable_ips(a));
    } else {
        announced_addresses_are_used_in_order(a, b.drop_last(), ip);
        assert((a + b).drop_last() =~= a + b.drop_last());
        assert((a + b).last() == b.last());
        assert(usable_ips(a + b) =~= usable_ips(a) + usable_ips(b));
    }
}

/// The nodes to pair with are all that are online and not mobile, in their order
/// and each once.
pub proof fn pairable_nodes_are_listed_in_order(peers: Seq<TailscalePeer>, at: int)
    ensures
        pairable_places(peers).contains(at) <==> 0 <= at < peers.len() && is_pairable(peers[at]),
        forall|i: int, j: int|
            0 <= i < j < pairable_places(peers).len() ==> pairable_places(peers)[i]
                < pairable_places(peers)[j],
        forall|i: int|
            0 <= i < pairable_places(peers).len() ==> 0 <= #[trigger] pairable_places(peers)[i]
                < peers.len(),
    decreases peers.len(),
{
    if peers.len() > 0 {
        let rest = peers.drop_last();
        let places = pairable_places(rest);
        pairable_nodes_are_listed_in_order(rest, at);
        if is_pairable(peers.last()) {
            let all = places.push(peers.len() - 1);
            assert(pairable_places(peers) == all);
            if places.contains(at) {
                let k = choose|k: int| 0 <= k < places.len() && places[k] == at;
                assert(all[k] == at);
            }
            if at == peers.len() - 1 {
                assert(all[places.len() as int] == at);
            }
            if all.contains(at) && at != peers.len() - 1 {
                let k = choose|k: int| 0 <= k < all.len() && all[k] == at;
                assert(places[k] == at);
            }
        }
        if 0 <= at < rest.len() {
            assert(rest[at] == peers[at]);
        }
    }
}

/// A node is one to pair with exactly where it is online and its system is
/// neither `ios` nor `android`, in capitals or not.
pub proof fn mobile_nodes_are_left_out(peer: TailscalePeer)
    ensures
        is_pairable(peer) <==> peer.online && text::lowercase(peer.os@) != seq!['i', 'o', 's']
            && text::lowercase(peer.os@) != seq!['a', 'n', 'd', 'r', 'o', 'i', 'd'],
{
    reveal_strlit("ios");
    reveal_strlit("android");
    assert("ios"@ =~= seq!['i', 'o', 's']);
    assert("android"@ =~= seq!['a', 'n', 'd', 'r', 'o', 'i', 'd']);
}

/// An announcement is known by the id and the name that it gives, and by the
/// name of the service where it gives no name.
pub proof fn announcements_are_known_by_their_name(announced: Announced)
    ensures
        announced.id matches Some(id) ==> announced.device_id() == id@,
        announced.id is None ==> announced.device_id().len() == 0,
        announced.name matches Some(name) ==> announced.device_name() == name@,
        announced.name is None ==> announced.device_name() == announced.full_name@,
{
    reveal_strlit("");
}

/// Addresses that rise are in order, and none comes twice.
pub proof fn rising_addresses_differ(s: Seq<u32>, i: int, j: int)
    requires
        rises(s),
        0 <= i < j < s.len(),
    ensures
        s[i] < s[j],
{
}

/// Daemons and devices that can be paired are announced as different services.
pub proof fn services_are_told_apart()
    ensures
        SERVICE@ == "_pastebridge._udp.local."@,
        PAIR_SERVICE@ == "_pastebridge-pair._udp.local."@,
        SERVICE@ != PAIR_SERVICE@,
{
    reveal_strlit("_pastebridge._udp.local.");
    reveal_strlit("_pastebridge-pair._udp.local.");
    assert(SERVICE@[12] == '.' && PAIR_SERVICE@[12] == '-');
}

} // verus!
