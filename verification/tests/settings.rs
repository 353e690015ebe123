use pastebridge::cli::{print_intro, print_list, print_stopped, unpair};
use pastebridge::clip_tools::System;
use pastebridge::clock::{timestamp, timestamp_now};
use pastebridge::config::{join, parse_addr, Config, ConfigProblem, Paths};
use pastebridge::discovery::{
    announcement, found_peers, ip_string, local_ipv4s, sanitize_label, Addr4, Announced,
    Interface, TailscaleNetwork, TailscalePeer, PAIR_SERVICE, SERVICE,
};
use pastebridge::doctor::{fail, join_names, run, ClipboardState, Facts};
use pastebridge::identity::{Identity, Peer, PeerList};
use pastebridge::service::{
    install, launchd_plist, restart, service_dir, service_file, systemd_unit, uninstall,
    ServiceProblem,
};

fn ip(a: u8, b: u8, c: u8, d: u8) -> u32 {
    u32::from_be_bytes([a, b, c, d])
}

fn peer(id: &str, name: &str, addr: Option<&str>) -> Peer {
    Peer {
        device_id: id.into(),
        name: name.into(),
        cert_pem: String::new(),
        cert_sha256: String::new(),
        last_addr: addr.map(|a| a.to_string()),
        paired_at: String::new(),
    }
}

fn identity() -> Identity {
    Identity {
        device_id: "abc".into(),
        name: "box".into(),
        cert_pem: String::new(),
        key_pem: String::new(),
    }
}

#[test]
fn default_settings() {
    let config = Config::load(None).unwrap();
    assert_eq!(config.device_name, None);
    assert_eq!(config.bind_address, 0);
    assert_eq!(config.port, 27419);
    assert_eq!(config.pair_port, 27420);
    assert_eq!(config.max_payload_bytes, 8_388_608);
    assert_eq!(config.poll_interval_ms, 400);
    assert!(config.sync_images);
    assert_eq!(config.clipboard_ttl_seconds, 180);
    assert!(config.static_peers.is_empty());
}

#[test]
fn lifetimes_are_at_most_a_year() {
    let mut config = Config::default();
    config.clipboard_ttl_seconds = 31_536_000;
    let mut config = Config::load(Some(config)).unwrap();
    config.clipboard_ttl_seconds += 1;
    assert_eq!(
        Config::load(Some(config)).err(),
        Some(ConfigProblem::LifetimeTooLong)
    );
}

#[test]
fn devices_are_named_by_setting_or_host() {
    let mut config = Config::default();
    assert_eq!(config.device_name(Some("host")), "host");
    assert_eq!(config.device_name(None), "pastebridge");
    config.device_name = Some("  ".into());
    assert_eq!(config.device_name(Some("host")), "host");
    config.device_name = Some(" desk ".into());
    assert_eq!(config.device_name(Some("host")), "desk");
}

#[test]
fn files_are_in_the_settings_directory() {
    let paths = Paths::new(Some("/home/me/pb"), Some("/other")).unwrap();
    assert_eq!(paths.config_dir, "/home/me/pb");
    assert_eq!(paths.config_file, "/home/me/pb/config.toml");
    assert_eq!(paths.identity_file, "/home/me/pb/identity.json");
    assert_eq!(paths.peers_file, "/home/me/pb/peers.json");
    assert_eq!(paths.status_file, "/home/me/pb/status.json");
    assert_eq!(paths.pid_file, "/home/me/pb/pastebridge.pid");
    assert_eq!(
        Paths::new(None, Some("/dir/")).unwrap().config_file,
        "/dir/config.toml"
    );
    assert_eq!(Paths::new(None, None).err(), Some(ConfigProblem::NoDirectory));
    assert_eq!(join("", "x"), "x");
    assert_eq!(Paths::runtime_dir(Some("/run"), "/tmp"), "/run");
    assert_eq!(Paths::runtime_dir(None, "/tmp"), "/tmp");
}

#[test]
fn addresses_get_the_default_port() {
    assert_eq!(parse_addr("10.0.0.1", 27419), "10.0.0.1:27419");
    assert_eq!(parse_addr("10.0.0.1:5", 27419), "10.0.0.1:5");
    assert_eq!(parse_addr(&parse_addr("h", 0), 9), "h:0");
}

#[test]
fn moments_are_written_by_rfc_3339() {
    assert_eq!(timestamp(0, "unknown"), "1970-01-01T00:00:00Z");
    assert_eq!(
        timestamp(1_700_000_000_500_000_000, ""),
        "2023-11-14T22:13:20.5Z"
    );
    assert_eq!(timestamp(i128::MAX, "unknown"), "unknown");
    assert_ne!(timestamp_now("unknown"), "unknown");
}

#[test]
fn labels_are_letters_digits_and_hyphens() {
    assert_eq!(sanitize_label("My Mac.local"), "My-Mac-local");
    assert_eq!(sanitize_label(""), "pastebridge");
    assert_eq!(sanitize_label(&"é".repeat(70)), "-".repeat(63));
}

#[test]
fn reachable_addresses_are_sorted() {
    let on = |name: &str, ip: Option<u32>| Interface {
        name: name.into(),
        ip,
    };
    let interfaces = vec![
        on("lo", Some(ip(10, 0, 0, 9))),
        on("Eth1", Some(ip(192, 168, 0, 2))),
        on("eth0", Some(ip(10, 0, 0, 3))),
        on("eth0", Some(ip(10, 0, 0, 3))),
        on("br-docker0", Some(ip(172, 17, 0, 1))),
        on("vethX", Some(ip(172, 18, 0, 1))),
        on("eth2", Some(ip(169, 254, 1, 1))),
        on("eth3", Some(ip(224, 0, 0, 1))),
        on("eth4", Some(ip(127, 0, 0, 1))),
        on("eth5", None),
    ];
    assert_eq!(
        local_ipv4s(&interfaces, Some(7)),
        vec![ip(10, 0, 0, 3), ip(192, 168, 0, 2)]
    );
    assert_eq!(local_ipv4s(&vec![], Some(7)), vec![7]);
    assert_eq!(local_ipv4s(&vec![], None), Vec::<u32>::new());
    assert_eq!(ip_string(ip(192, 168, 0, 2)), "192.168.0.2");
}

#[test]
fn devices_are_announced() {
    let a = announcement("id 1", "my box", 9, Some("host.x"), &vec![1]).unwrap();
    assert_eq!(a.instance, "id-1");
    assert_eq!(a.host, "host-x.local.");
    assert_eq!((a.id.as_str(), a.name.as_str()), ("id 1", "my box"));
    assert_eq!((a.port, a.version.as_str()), (9, "1"));
    let a = announcement("id", "n", 9, None, &vec![1]).unwrap();
    assert_eq!(a.host, "pastebridge.local.");
    assert!(announcement("id", "n", 9, None, &vec![]).is_none());
    assert_eq!(SERVICE, "_pastebridge._udp.local.");
    assert_eq!(PAIR_SERVICE, "_pastebridge-pair._udp.local.");
}

#[test]
fn announced_devices_are_found() {
    let found = found_peers(&Announced {
        id: Some("id".into()),
        name: None,
        full_name: "full".into(),
        port: 9,
        ips: vec![Some(ip(127, 0, 0, 1)), None, Some(5), Some(4)],
    });
    assert_eq!(found.len(), 2);
    assert_eq!(found[0].device_id, "id");
    assert_eq!(found[0].name, "full");
    assert_eq!(found[0].addr, Addr4 { ip: 5, port: 9 });
    assert_eq!(found[1].addr, Addr4 { ip: 4, port: 9 });
    let found = found_peers(&Announced {
        id: None,
        name: Some("n".into()),
        full_name: "full".into(),
        port: 9,
        ips: vec![Some(5)],
    });
    assert_eq!(found[0].device_id, "");
    assert_eq!(found[0].name, "n");
}

#[test]
fn mobile_nodes_are_skipped() {
    let node = |os: &str, online: bool| TailscalePeer {
        name: os.into(),
        ip: 1,
        os: os.into(),
        online,
    };
    let network = TailscaleNetwork {
        local_ip: 2,
        peers: vec![
            node("iOS", true),
            node("linux", true),
            node("android", true),
            node("macOS", false),
            node("macOS", true),
        ],
    };
    assert_eq!(network.pairable_peers(), vec![1, 4]);
}

fn facts() -> Facts {
    Facts {
        name: "box".into(),
        config_dir: "/c".into(),
        config_dir_exists: true,
        peer_names: vec![],
        clipboard: ClipboardState::Empty {
            backend: "arboard".into(),
        },
        port: 27419,
        port_free: true,
        daemon_pid: None,
        wayland_set: false,
        wl_copy: false,
        wl_paste: false,
        tailscale: None,
    }
}

#[test]
fn a_healthy_report() {
    let mut healthy = facts();
    healthy.peer_names = vec!["a".into(), "b".into()];
    healthy.clipboard = ClipboardState::Holds {
        backend: "wl".into(),
        mime: "text/plain".into(),
        len: 12,
    };
    healthy.port_free = false;
    healthy.daemon_pid = Some(77);
    healthy.tailscale = Some((ip(100, 64, 0, 2), 1));
    assert_eq!(
        run(&healthy),
        vec![
            "",
            "  box",
            "  paired     a, b",
            "  clipboard  wl  text/plain  12 B",
            "  tailscale  100.64.0.2  1 peer",
            "  daemon     running  pid 77",
            "",
        ]
    );
}

#[test]
fn a_report_on_trouble() {
    let mut trouble = facts();
    trouble.config_dir_exists = false;
    trouble.clipboard = ClipboardState::Failed("gone".into());
    trouble.port_free = false;
    trouble.wayland_set = true;
    trouble.wl_copy = true;
    trouble.tailscale = Some((1, 0));
    assert_eq!(
        run(&trouble),
        vec![
            "",
            "  box",
            "! config     /c",
            "  paired     none",
            "! clipboard  gone",
            "! port       27419 in use",
            "! wl-clipboard install with  sudo dnf install wl-clipboard",
            "  tailscale  0.0.0.1  0 peers",
            "  daemon     stopped",
            "",
            "  4 need attention",
            "",
        ]
    );
    assert_eq!(fail("port", "x"), "! port       x");
    assert_eq!(join_names(&vec!["a".into()]), "a");
    assert_eq!(join_names(&vec![]), "");
}

#[test]
fn services_are_defined() {
    assert_eq!(
        systemd_unit("/bin/pb"),
        "[Unit]\n\
         Description=Pastebridge clipboard sync\n\
         After=network-online.target\n\
         Wants=network-online.target\n\
         \n\
         [Service]\n\
         ExecStart=/bin/pb start\n\
         Restart=on-failure\n\
         RestartSec=3\n\
         Environment=RUST_LOG=pastebridge=info\n\
         \n\
         [Install]\n\
         WantedBy=default.target\n"
    );
    let plist = launchd_plist("/bin/pb", "/logs");
    assert!(plist.starts_with("<?xml version=\"1.0\" encoding=\"UTF-8\"?>\n<!DOCTYPE plist"));
    assert!(plist.contains("    <string>/bin/pb</string>\n    <string>start</string>\n"));
    assert!(plist.contains("<string>/logs/pastebridge.log</string>"));
    assert!(plist.ends_with("<string>/logs/pastebridge.err</string>\n</dict>\n</plist>\n"));
}

#[test]
fn services_are_turned_on_and_off() {
    assert_eq!(
        service_dir(System::Linux, Some("/x"), Some("/h")),
        Ok("/x/systemd/user".to_string())
    );
    assert_eq!(
        service_dir(System::Linux, None, Some("/h")),
        Ok("/h/.config/systemd/user".to_string())
    );
    assert_eq!(
        service_dir(System::MacOs, Some("/x"), Some("/h")),
        Ok("/h/Library/LaunchAgents".to_string())
    );
    assert_eq!(
        service_dir(System::MacOs, None, None),
        Err(ServiceProblem::NoHome)
    );
    assert_eq!(
        service_dir(System::Other, None, None),
        Err(ServiceProblem::Unsupported)
    );
    assert_eq!(service_file(System::Linux), Some("pastebridge.service"));
    let on = install(System::Linux, "me", "/f").unwrap();
    assert_eq!(on.before, vec![vec!["systemctl", "--user", "daemon-reload"]]);
    assert_eq!(
        on.enable,
        vec!["systemctl", "--user", "enable", "--now", "pastebridge.service"]
    );
    assert_eq!(on.once_on, vec![vec!["loginctl", "enable-linger", "me"]]);
    let on = install(System::MacOs, "501", "/f").unwrap();
    assert_eq!(
        on.enable,
        vec!["launchctl", "bootstrap", "gui/501", "/f"]
    );
    assert_eq!(
        on.after,
        vec![vec!["launchctl", "enable", "gui/501/dev.pastebridge.daemon"]]
    );
    assert!(install(System::Other, "me", "/f").is_err());
    let off = uninstall(System::Linux, "me").unwrap();
    assert_eq!(
        off.disable,
        vec!["systemctl", "--user", "disable", "--now", "pastebridge.service"]
    );
    assert_eq!(off.message, "Removed the Pastebridge user service.");
    let off = uninstall(System::MacOs, "501").unwrap();
    assert_eq!(
        off.disable,
        vec!["launchctl", "bootout", "gui/501/dev.pastebridge.daemon"]
    );
    assert!(uninstall(System::Other, "me").is_err());
    assert_eq!(
        restart(System::Linux, "me").unwrap(),
        vec!["systemctl", "--user", "restart", "pastebridge.service"]
    );
}

#[test]
fn paired_devices_are_listed() {
    let none = PeerList::default();
    assert_eq!(print_list(&none), vec!["no paired devices"]);
    let mut list = PeerList {
        peers: vec![peer("a", "one", None), peer("b", "two", Some("h:1"))],
    };
    assert_eq!(print_list(&list), vec!["a  one  -", "b  two  h:1"]);
    assert_eq!(
        print_stopped(&identity(), &list),
        vec!["daemon: stopped", "device: box (abc)", "a  one  -", "b  two  h:1"]
    );
    assert_eq!(unpair(&mut list, "a"), Ok("forgot a".to_string()));
    assert_eq!(
        unpair(&mut list, "a"),
        Err("no paired device named a".to_string())
    );
    assert_eq!(list.peers.len(), 1);
}

#[test]
fn the_introduction_depends_on_pairing() {
    let none = PeerList::default();
    assert_eq!(
        print_intro("0.1.2", &identity(), "/c", &none, false, 27419),
        vec![
            "pastebridge 0.1.2",
            "",
            "  This computer : box (abc)",
            "  Config        : /c",
            "",
            "  Not paired yet. On both computers run:",
            "",
            "      pastebridge pair",
            "",
            "  Compare the codes, type y, then:",
            "",
            "      pastebridge install-service",
            "",
            "  Commands: pair, start, status, doctor, install-service",
            "  Port 27419  (UDP, QUIC)",
        ]
    );
    let list = PeerList {
        peers: vec![peer("a", "one", None)],
    };
    let lines = print_intro("0.1.2", &identity(), "/c", &list, true, 27419);
    assert_eq!(lines[5], "  Paired with:");
    assert_eq!(lines[6], "      one (a)");
    assert_eq!(lines[8], "  Daemon is running. Copy here, paste there.");
    let lines = print_intro("0.1.2", &identity(), "/c", &list, false, 27419);
    assert_eq!(lines[8], "  Daemon is not running. Start it with:");
    assert_eq!(lines.len(), 15);
}
