use net_namespace::AddressRegistry;
use net_namespace::Ipv4Address;
use net_namespace::NetworkNamespace;
use net_namespace::ProtocolType;
use net_namespace::QDiscMode;
use net_namespace::SocketAddressV4;

fn make_namespace(public: Ipv4Address) -> (NetworkNamespace, AddressRegistry) {
    let mut reg = AddressRegistry::new();
    let ns = NetworkNamespace::new(
        7,
        b"testhost".to_vec(),
        public,
        None,
        QDiscMode::Fifo,
        &mut reg,
    );
    (ns, reg)
}

#[test]
fn interface_selects_loopback_for_loopback_addresses() {
    let (ns, _reg) = make_namespace(Ipv4Address::new(10, 0, 0, 5));
    let lo = ns.interface(Ipv4Address::new(127, 0, 0, 1)).expect("loopback interface");
    assert_eq!(lo.ip, Ipv4Address::new(127, 0, 0, 1));
    assert!(!lo.uses_router);
    // Any 127/8 address selects the loopback interface.
    let lo2 = ns.interface(Ipv4Address::new(127, 9, 9, 9)).expect("loopback interface");
    assert_eq!(lo2.ip, Ipv4Address::new(127, 0, 0, 1));
}

#[test]
fn interface_selects_internet_for_default_ip_and_none_otherwise() {
    let (ns, _reg) = make_namespace(Ipv4Address::new(10, 0, 0, 5));
    let inet = ns.interface(Ipv4Address::new(10, 0, 0, 5)).expect("routable interface");
    assert_eq!(inet.ip, Ipv4Address::new(10, 0, 0, 5));
    assert!(inet.uses_router);
    assert!(ns.interface(Ipv4Address::new(10, 0, 0, 6)).is_none());
    assert!(ns.interface(Ipv4Address::new(0, 0, 0, 0)).is_none());
}

#[test]
fn interface_mut_selects_like_interface() {
    let (mut ns, _reg) = make_namespace(Ipv4Address::new(10, 0, 0, 5));
    assert!(ns.interface_mut(Ipv4Address::new(127, 0, 0, 1)).is_some());
    assert!(ns.interface_mut(Ipv4Address::new(10, 0, 0, 5)).is_some());
    assert!(ns.interface_mut(Ipv4Address::new(192, 0, 2, 7)).is_none());
}

#[test]
fn wildcard_availability_is_conjunction_of_both_interfaces() {
    let (mut ns, _reg) = make_namespace(Ipv4Address::new(10, 0, 0, 5));
    let peer = SocketAddressV4::new(Ipv4Address::new(192, 0, 2, 1), 80);
    let wildcard = SocketAddressV4::new(Ipv4Address::new(0, 0, 0, 0), 4000);
    let on_lo = SocketAddressV4::new(Ipv4Address::new(127, 0, 0, 1), 4000);
    let on_inet = SocketAddressV4::new(Ipv4Address::new(10, 0, 0, 5), 4000);

    assert!(ns.is_interface_available(ProtocolType::Tcp, wildcard, peer));

    // Claim the port on the loopback interface only: the wildcard must see it.
    ns.associate_interface(1, ProtocolType::Tcp, on_lo, peer);
    assert!(!ns.is_interface_available(ProtocolType::Tcp, wildcard, peer));
    assert!(!ns.is_interface_available(ProtocolType::Tcp, on_lo, peer));
    assert!(ns.is_interface_available(ProtocolType::Tcp, on_inet, peer));

    // Claim it on the routable interface too; then release loopback only.
    ns.associate_interface(2, ProtocolType::Tcp, on_inet, peer);
    assert!(!ns.is_interface_available(ProtocolType::Tcp, wildcard, peer));
    ns.disassociate_interface(ProtocolType::Tcp, on_lo, peer);
    assert!(!ns.is_interface_available(ProtocolType::Tcp, wildcard, peer));
    ns.disassociate_interface(ProtocolType::Tcp, on_inet, peer);
    assert!(ns.is_interface_available(ProtocolType::Tcp, wildcard, peer));
}

#[test]
fn specific_claim_blocks_wildcard_and_unknown_address_is_never_available() {
    let (mut ns, _reg) = make_namespace(Ipv4Address::new(10, 0, 0, 5));
    let peer = SocketAddressV4::new(Ipv4Address::new(192, 0, 2, 1), 80);
    ns.associate_interface(
        1,
        ProtocolType::Tcp,
        SocketAddressV4::new(Ipv4Address::new(10, 0, 0, 5), 5000),
        peer,
    );
    // The wildcard sees the specific interface's claim.
    assert!(!ns.is_interface_available(
        ProtocolType::Tcp,
        SocketAddressV4::new(Ipv4Address::new(0, 0, 0, 0), 5000),
        peer,
    ));
    // An address of no interface can never be bound.
    assert!(!ns.is_interface_available(
        ProtocolType::Tcp,
        SocketAddressV4::new(Ipv4Address::new(10, 0, 0, 6), 5000),
        peer,
    ));
}

#[test]
fn wildcard_association_claims_and_releases_both_interfaces() {
    let (mut ns, _reg) = make_namespace(Ipv4Address::new(10, 0, 0, 5));
    let peer = SocketAddressV4::new(Ipv4Address::new(192, 0, 2, 1), 443);
    let wildcard = SocketAddressV4::new(Ipv4Address::new(0, 0, 0, 0), 6000);
    ns.associate_interface(9, ProtocolType::Udp, wildcard, peer);
    assert!(!ns.is_interface_available(
        ProtocolType::Udp,
        SocketAddressV4::new(Ipv4Address::new(127, 0, 0, 1), 6000),
        peer,
    ));
    assert!(!ns.is_interface_available(
        ProtocolType::Udp,
        SocketAddressV4::new(Ipv4Address::new(10, 0, 0, 5), 6000),
        peer,
    ));
    ns.disassociate_interface(ProtocolType::Udp, wildcard, peer);
    assert!(ns.is_interface_available(
        ProtocolType::Udp,
        SocketAddressV4::new(Ipv4Address::new(127, 0, 0, 1), 6000),
        peer,
    ));
    assert!(ns.is_interface_available(
        ProtocolType::Udp,
        SocketAddressV4::new(Ipv4Address::new(10, 0, 0, 5), 6000),
        peer,
    ));
}

#[test]
fn disassociating_twice_is_as_if_never_associated() {
    let (mut ns, _reg) = make_namespace(Ipv4Address::new(10, 0, 0, 5));
    let peer = SocketAddressV4::new(Ipv4Address::new(192, 0, 2, 1), 80);
    let bind = SocketAddressV4::new(Ipv4Address::new(10, 0, 0, 5), 7000);
    let wildcard = SocketAddressV4::new(Ipv4Address::new(0, 0, 0, 0), 7000);

    ns.associate_interface(5, ProtocolType::Tcp, bind, peer);
    ns.disassociate_interface(ProtocolType::Tcp, bind, peer);
    ns.disassociate_interface(ProtocolType::Tcp, bind, peer);

    // Availability is identical to a namespace where nothing ever happened.
    assert!(ns.is_interface_available(ProtocolType::Tcp, bind, peer));
    assert!(ns.is_interface_available(ProtocolType::Tcp, wildcard, peer));
    let (fresh, _reg2) = make_namespace(Ipv4Address::new(10, 0, 0, 5));
    assert!(fresh.is_interface_available(ProtocolType::Tcp, bind, peer));
    assert!(fresh.is_interface_available(ProtocolType::Tcp, wildcard, peer));
}

#[test]
fn association_for_unknown_address_is_a_silent_no_op() {
    let (mut ns, _reg) = make_namespace(Ipv4Address::new(10, 0, 0, 5));
    let peer = SocketAddressV4::new(Ipv4Address::new(192, 0, 2, 1), 80);
    let stranger = SocketAddressV4::new(Ipv4Address::new(203, 0, 113, 9), 8000);
    ns.associate_interface(3, ProtocolType::Tcp, stranger, peer);
    // Nothing was claimed anywhere.
    assert!(ns.is_interface_available(
        ProtocolType::Tcp,
        SocketAddressV4::new(Ipv4Address::new(0, 0, 0, 0), 8000),
        peer,
    ));
    ns.disassociate_interface(ProtocolType::Tcp, stranger, peer);
    assert!(ns.is_interface_available(
        ProtocolType::Tcp,
        SocketAddressV4::new(Ipv4Address::new(0, 0, 0, 0), 8000),
        peer,
    ));
}

#[test]
fn protocols_do_not_collide() {
    let (mut ns, _reg) = make_namespace(Ipv4Address::new(10, 0, 0, 5));
    let peer = SocketAddressV4::new(Ipv4Address::new(192, 0, 2, 1), 80);
    let bind = SocketAddressV4::new(Ipv4Address::new(10, 0, 0, 5), 9000);
    ns.associate_interface(4, ProtocolType::Tcp, bind, peer);
    assert!(!ns.is_interface_available(ProtocolType::Tcp, bind, peer));
    assert!(ns.is_interface_available(ProtocolType::Udp, bind, peer));
}
