use term_orchestrator_core::discovery::{
    banner_from_text, hostname_hint, normalize_mac, os_hint_from_banner, parse_arp_linux,
    parse_arp_windows, parse_ip_neigh,
};
use term_orchestrator_core::{DiscoveryResult, MachineOs};

const LINUX: &str = "\
Address                  HWtype  HWaddress           Flags Mask            Iface
192.168.1.1              ether   11:22:33:44:55:66   C                     eth0
192.168.1.50             ether   aa:bb:cc:dd:ee:ff   C                     eth0
192.168.1.77                     (incomplete)                              eth0
";

const WINDOWS: &str = "\r
Interface: 192.168.1.10 --- 0x4\r
  Internet Address      Physical Address      Type\r
  192.168.1.1           11-22-33-44-55-66     dynamic\r
  192.168.1.50          aa-bb-cc-dd-ee-ff     dynamic\r
  192.168.1.255         ff-ff-ff-ff-ff-ff     static\r
";

#[test]
fn normalize_mac_forms() {
    assert_eq!(
        normalize_mac("aa-bb-cc-dd-ee-ff").as_deref(),
        Some("AA:BB:CC:DD:EE:FF")
    );
    assert_eq!(
        normalize_mac("aa:bb:cc:dd:ee:ff").as_deref(),
        Some("AA:BB:CC:DD:EE:FF")
    );
    assert_eq!(normalize_mac("(incomplete)"), None);
    assert_eq!(normalize_mac("aa:bb:cc"), None);
}

#[test]
fn normalize_mac_trims_and_keeps_canonical_form() {
    assert_eq!(
        normalize_mac("  0a:1B-2c:3D-4e:5F \n").as_deref(),
        Some("0A:1B:2C:3D:4E:5F")
    );
    assert_eq!(
        normalize_mac("AA:BB:CC:DD:EE:FF").as_deref(),
        Some("AA:BB:CC:DD:EE:FF")
    );
    assert_eq!(normalize_mac("aa:bb:cc:dd:ee:fg"), None);
    assert_eq!(normalize_mac("aa:bb:cc:dd:ee:f"), None);
    assert_eq!(normalize_mac("aa:bb:cc:dd:ee:ff:00"), None);
}

#[test]
fn arp_linux_finds_ip() {
    assert_eq!(
        parse_arp_linux(LINUX, "192.168.1.50").as_deref(),
        Some("AA:BB:CC:DD:EE:FF")
    );
    assert_eq!(parse_arp_linux(LINUX, "192.168.1.77"), None);
    assert_eq!(
        parse_arp_linux(LINUX, "192.168.1.5"),
        None,
        "must not prefix-match .50"
    );
}

#[test]
fn arp_windows_finds_ip() {
    assert_eq!(
        parse_arp_windows(WINDOWS, "192.168.1.50").as_deref(),
        Some("AA:BB:CC:DD:EE:FF")
    );
    assert_eq!(parse_arp_windows(WINDOWS, "192.168.1.5"), None);
}

#[test]
fn ip_neigh_gives_first_mac() {
    assert_eq!(
        parse_ip_neigh("192.168.1.50 dev eth0 lladdr aa:bb:cc:dd:ee:ff REACHABLE\n").as_deref(),
        Some("AA:BB:CC:DD:EE:FF")
    );
    assert_eq!(parse_ip_neigh("192.168.1.50 dev eth0 FAILED\n"), None);
}

#[test]
fn os_hint_heuristics() {
    assert_eq!(
        os_hint_from_banner("SSH-2.0-OpenSSH_9.6p1 Ubuntu-3ubuntu13"),
        MachineOs::Linux
    );
    assert_eq!(
        os_hint_from_banner("SSH-2.0-OpenSSH_9.2p1 Debian-2"),
        MachineOs::Linux
    );
    assert_eq!(
        os_hint_from_banner("SSH-2.0-OpenSSH_for_Windows_9.5"),
        MachineOs::WindowsWsl
    );
    assert_eq!(
        os_hint_from_banner("SSH-2.0-OpenSSH_9.6"),
        MachineOs::Unknown
    );
}

#[test]
fn banner_is_first_line_when_it_is_ssh() {
    assert_eq!(
        banner_from_text("SSH-2.0-OpenSSH_9.6 Debian\r\nrest").as_deref(),
        Some("SSH-2.0-OpenSSH_9.6 Debian")
    );
    assert_eq!(banner_from_text("HTTP/1.1 400\r\n"), None);
    assert_eq!(banner_from_text(""), None);
}

#[test]
fn hostname_hint_drops_plain_address() {
    assert_eq!(
        hostname_hint(Some("worker.lan".into()), "10.0.0.5").as_deref(),
        Some("worker.lan")
    );
    assert_eq!(hostname_hint(Some("10.0.0.5".into()), "10.0.0.5"), None);
    assert_eq!(hostname_hint(None, "10.0.0.5"), None);
}

#[test]
fn probes_add_up_to_result() {
    let r = DiscoveryResult::from_probes(
        false,
        None,
        None,
        Some("SSH-2.0-OpenSSH_for_Windows_9.5".into()),
    );
    assert!(r.reachable);
    assert_eq!(r.os_hint, MachineOs::WindowsWsl);
    let r = DiscoveryResult::from_probes(false, None, None, None);
    assert_eq!(r, DiscoveryResult::default());
    let r = DiscoveryResult::from_probes(true, Some("AA:BB:CC:DD:EE:FF".into()), None, None);
    assert!(r.reachable);
    assert_eq!(r.os_hint, MachineOs::Unknown);
}
