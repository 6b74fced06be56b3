use micast_broadcaster::services::clock_server;
use micast_broadcaster::services::dedector_client::{clock_endpoint, restart_wait_ms, CLOCK_PORT};
use micast_broadcaster::services::dedector_server;
use micast_broadcaster::services::informip::{
    announce_targets, announced_address, announcement_message, broadcast_address,
    confirmation_message, confirmation_target, takes_part_in_announcements, try_announced_address,
    NetInterface,
    BROADCAST_PORT, CONFIRMATION_PORT,
};

#[test]
fn dedector_service_announces_address_and_port() {
    let a = dedector_server::service("192.168.0.3", 5000);
    assert_eq!(a.payload, "micast-dj|192.168.0.3|5000|\n");
    assert_eq!(a.port, BROADCAST_PORT);
    assert_eq!(a.port, 5889);
    assert_eq!(a.interval_ms, 5000);
}

#[test]
fn clock_service_announces_itself() {
    let a = clock_server::service();
    assert_eq!(a.payload, "micast-dj");
    assert_eq!(a.port, 5015);
    assert_eq!(a.interval_ms, 5000);
}

#[test]
fn announcement_roundtrip_on_values() {
    for (addr, port) in [("224.1.1.48", 5000u32), ("", 0), ("host.local", 4294967295)] {
        let m = announcement_message(addr, port);
        assert_eq!(announced_address(&m), addr);
    }
    assert_eq!(announcement_message("10.0.0.1", 42), "micast-dj|10.0.0.1|42|\n");
}

#[test]
fn announced_address_takes_second_piece() {
    assert_eq!(announced_address("micast-dj|1.2.3.4|5000|\n"), "1.2.3.4");
    assert_eq!(announced_address("mirror|\n"), "\n");
    assert_eq!(announced_address("a|b"), "b");
    assert_eq!(announced_address("|"), "");
}

#[test]
fn confirmations() {
    assert_eq!(confirmation_message(), "mirror|\n");
    assert_eq!(confirmation_target("10.42.0.1"), "10.42.0.1:5887");
    assert_eq!(CONFIRMATION_PORT, 5887);
}

#[test]
fn broadcast_targets_of_interfaces() {
    assert_eq!(broadcast_address((192, 168, 0, 17)), (192, 168, 0, 255));
    let ifaces = vec![
        NetInterface { name: "lo".to_string(), ipv4: Some((127, 0, 0, 1)) },
        NetInterface { name: "eth0".to_string(), ipv4: Some((192, 168, 0, 17)) },
        NetInterface { name: "wlan0".to_string(), ipv4: None },
        NetInterface { name: "lo:1".to_string(), ipv4: Some((10, 1, 2, 3)) },
        NetInterface { name: "dummy".to_string(), ipv4: Some((127, 0, 0, 2)) },
    ];
    assert!(!takes_part_in_announcements(&ifaces[0]));
    assert!(takes_part_in_announcements(&ifaces[1]));
    assert!(!takes_part_in_announcements(&ifaces[2]));
    assert_eq!(
        announce_targets(&ifaces),
        vec![(192, 168, 0, 255), (10, 1, 2, 255), (127, 0, 0, 255)]
    );
    assert!(announce_targets(&Vec::new()).is_empty());
}

#[test]
fn clock_listener_restart() {
    assert_eq!(restart_wait_ms(0), 2000);
    assert_eq!(restart_wait_ms(500_000_000), 1500);
    assert_eq!(restart_wait_ms(1_999_999_999), 0);
    assert_eq!(restart_wait_ms(1_998_500_000), 1);
    assert_eq!(restart_wait_ms(2_000_000_000), 0);
    assert_eq!(restart_wait_ms(u128::MAX), 0);
    assert_eq!(clock_endpoint("10.0.0.2".to_string()), ("10.0.0.2".to_string(), 8555));
    assert_eq!(CLOCK_PORT, 8555);
}

#[test]
fn malformed_datagrams_are_no_announcements() {
    assert_eq!(try_announced_address("hello"), None);
    assert_eq!(try_announced_address(""), None);
    assert_eq!(try_announced_address("a|b"), Some("b".to_string()));
    assert_eq!(
        try_announced_address("micast-dj|10.0.0.1|5000|\n"),
        Some("10.0.0.1".to_string())
    );
}
