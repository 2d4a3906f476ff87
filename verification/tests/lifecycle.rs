use net_namespace::AddressRegistry;
use net_namespace::Ipv4Address;
use net_namespace::NetworkNamespace;
use net_namespace::PcapOptions;
use net_namespace::QDiscMode;

#[test]
fn construction_registers_loopback_and_public_address() {
    let mut reg = AddressRegistry::new();
    let public = Ipv4Address::new(10, 0, 0, 5);
    let ns = NetworkNamespace::new(7, b"testhost".to_vec(), public, None, QDiscMode::Fifo, &mut reg);
    assert!(reg.is_registered(Ipv4Address::new(127, 0, 0, 1)));
    assert!(reg.is_registered(public));
    assert!(!reg.is_registered(Ipv4Address::new(10, 0, 0, 6)));
    assert_eq!(ns.default_ip, public);
    assert_eq!(reg.deregistration_count(public), 0);
    assert_eq!(reg.deregistration_count(Ipv4Address::new(127, 0, 0, 1)), 0);
}

#[test]
fn teardown_deregisters_default_address_exactly_once() {
    let mut reg = AddressRegistry::new();
    let public = Ipv4Address::new(10, 0, 0, 5);
    let mut ns = NetworkNamespace::new(7, b"testhost".to_vec(), public, None, QDiscMode::Fifo, &mut reg);

    ns.teardown(&mut reg);
    assert_eq!(reg.deregistration_count(public), 1);
    // Loopback is never deregistered, matching construction-time behaviour.
    assert_eq!(reg.deregistration_count(Ipv4Address::new(127, 0, 0, 1)), 0);

    // A second drop path reaching the namespace must not deregister again.
    ns.teardown(&mut reg);
    ns.teardown(&mut reg);
    assert_eq!(reg.deregistration_count(public), 1);
}

#[test]
fn two_hosts_tear_down_independently() {
    // Each host owns its per-host registry context: loopback is registered
    // per host, so two namespaces use two registries.
    let mut reg_a = AddressRegistry::new();
    let a = Ipv4Address::new(10, 0, 0, 5);
    let mut ns_a = NetworkNamespace::new(1, b"alpha".to_vec(), a, None, QDiscMode::Fifo, &mut reg_a);
    let mut reg_b = AddressRegistry::new();
    let b = Ipv4Address::new(10, 0, 0, 6);
    let mut ns_b = NetworkNamespace::new(2, b"beta".to_vec(), b, None, QDiscMode::RoundRobin, &mut reg_b);

    ns_a.teardown(&mut reg_a);
    assert_eq!(reg_a.deregistration_count(a), 1);
    assert_eq!(reg_b.deregistration_count(b), 0);
    ns_b.teardown(&mut reg_b);
    assert_eq!(reg_b.deregistration_count(b), 1);
}

#[test]
fn construction_parameters_reach_both_interfaces() {
    let mut reg = AddressRegistry::new();
    let pcap = Some(PcapOptions { capture_size_bytes: 65535 });
    let ns = NetworkNamespace::new(
        7,
        b"testhost".to_vec(),
        Ipv4Address::new(10, 0, 0, 5),
        pcap,
        QDiscMode::RoundRobin,
        &mut reg,
    );
    assert_eq!(ns.localhost.pcap, pcap);
    assert_eq!(ns.internet.pcap, pcap);
    assert_eq!(ns.localhost.qdisc, QDiscMode::RoundRobin);
    assert_eq!(ns.internet.qdisc, QDiscMode::RoundRobin);
    assert!(!ns.localhost.uses_router);
    assert!(ns.internet.uses_router);
    assert_eq!(ns.localhost.host_id, 7);
    assert_eq!(ns.internet.host_id, 7);
    assert_eq!(ns.localhost.ip, Ipv4Address::new(127, 0, 0, 1));
    assert_eq!(ns.internet.ip, Ipv4Address::new(10, 0, 0, 5));
}
