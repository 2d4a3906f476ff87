use net_namespace::AddressRegistry;
use net_namespace::Ipv4Address;
use net_namespace::NetworkNamespace;
use net_namespace::PortRng;
use net_namespace::ProtocolType;
use net_namespace::QDiscMode;
use net_namespace::SocketAddressV4;

fn make_namespace(public: Ipv4Address) -> (NetworkNamespace, AddressRegistry) {
    let mut reg = AddressRegistry::new();
    let ns = NetworkNamespace::new(
        7,
        b"testhost".to_vec(),
        public,
        None,
        QDiscMode::Fifo,
        &mut reg,
    );
    (ns, reg)
}

#[test]
fn allocator_stays_inside_the_ephemeral_range() {
    let (ns, _reg) = make_namespace(Ipv4Address::new(10, 0, 0, 5));
    let peer = SocketAddressV4::new(Ipv4Address::new(192, 0, 2, 1), 80);
    for seed in 0..50u64 {
        let mut rng = PortRng::from_seed(seed);
        let port = ns
            .get_random_free_port(ProtocolType::Tcp, Ipv4Address::new(10, 0, 0, 5), peer, &mut rng)
            .expect("a fresh namespace has free ports");
        assert!((10000..=65535).contains(&port));
    }
}

#[test]
fn draws_stay_inside_the_ephemeral_range() {
    let mut rng = PortRng::from_seed(99);
    for _ in 0..1000 {
        let p = rng.draw_ephemeral();
        assert!((10000..=65535).contains(&p));
    }
}

#[test]
fn free_namespace_allocates_on_the_first_probe() {
    // With no associations at all, the first probe draw is free and is
    // returned at once: the allocation equals one draw from an equally
    // seeded generator.
    let (ns, _reg) = make_namespace(Ipv4Address::new(10, 0, 0, 5));
    let peer = SocketAddressV4::new(Ipv4Address::new(192, 0, 2, 1), 80);
    let mut replay = PortRng::from_seed(42);
    let first_draw = replay.draw_ephemeral();
    let mut rng = PortRng::from_seed(42);
    let port = ns
        .get_random_free_port(ProtocolType::Tcp, Ipv4Address::new(10, 0, 0, 5), peer, &mut rng)
        .expect("a fresh namespace has free ports");
    assert_eq!(port, first_draw);
}

#[test]
fn equal_seeds_allocate_equal_ports() {
    let (ns, _reg) = make_namespace(Ipv4Address::new(10, 0, 0, 5));
    let peer = SocketAddressV4::new(Ipv4Address::new(192, 0, 2, 1), 80);
    let mut rng1 = PortRng::from_seed(42);
    let p1 = ns
        .get_random_free_port(ProtocolType::Tcp, Ipv4Address::new(10, 0, 0, 5), peer, &mut rng1)
        .expect("a fresh namespace has free ports");
    assert!((10000..=65535).contains(&p1));
    // No association intervened, so an equally seeded call repeats the port.
    let mut rng2 = PortRng::from_seed(42);
    let p2 = ns
        .get_random_free_port(ProtocolType::Tcp, Ipv4Address::new(10, 0, 0, 5), peer, &mut rng2)
        .expect("a fresh namespace has free ports");
    assert_eq!(p1, p2);
}

#[test]
fn exhausted_range_yields_no_port() {
    let (mut ns, _reg) = make_namespace(Ipv4Address::new(10, 0, 0, 5));
    let peer = SocketAddressV4::new(Ipv4Address::new(192, 0, 2, 1), 80);
    for port in 10000..=65535u16 {
        ns.associate_interface(
            u64::from(port),
            ProtocolType::Tcp,
            SocketAddressV4::new(Ipv4Address::new(10, 0, 0, 5), port),
            peer,
        );
    }
    let mut rng = PortRng::from_seed(42);
    let got = ns.get_random_free_port(ProtocolType::Tcp, Ipv4Address::new(10, 0, 0, 5), peer, &mut rng);
    assert_eq!(got, None);
}

#[test]
fn single_free_port_is_found_by_the_sweep() {
    // Every port but one is taken: whatever the draws, the wrap-around
    // sweep must end on the single free port.
    let (mut ns, _reg) = make_namespace(Ipv4Address::new(10, 0, 0, 5));
    let peer = SocketAddressV4::new(Ipv4Address::new(192, 0, 2, 1), 80);
    for port in 10000..=65535u16 {
        if port != 12345 {
            ns.associate_interface(
                u64::from(port),
                ProtocolType::Tcp,
                SocketAddressV4::new(Ipv4Address::new(10, 0, 0, 5), port),
                peer,
            );
        }
    }
    let mut rng = PortRng::from_seed(7);
    let got = ns.get_random_free_port(ProtocolType::Tcp, Ipv4Address::new(10, 0, 0, 5), peer, &mut rng);
    assert_eq!(got, Some(12345));
}

#[test]
fn exhaustion_on_one_interface_leaves_the_other_allocatable() {
    let (mut ns, _reg) = make_namespace(Ipv4Address::new(10, 0, 0, 5));
    let peer = SocketAddressV4::new(Ipv4Address::new(192, 0, 2, 1), 80);
    for port in 10000..=65535u16 {
        ns.associate_interface(
            u64::from(port),
            ProtocolType::Tcp,
            SocketAddressV4::new(Ipv4Address::new(10, 0, 0, 5), port),
            peer,
        );
    }
    let mut rng = PortRng::from_seed(3);
    let lo_port = ns.get_random_free_port(
        ProtocolType::Tcp,
        Ipv4Address::new(127, 0, 0, 1),
        peer,
        &mut rng,
    );
    assert!(lo_port.is_some());
}
